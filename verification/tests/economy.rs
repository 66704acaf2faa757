use econ_bot::commands::economy::{
    balance, cooldown_message, daily_cooldown, deposit, deposit_reply, explore,
    explore_found_text, explore_thumbnail, explore_tiers, tier_named, pick_item, roll_tier, withdraw, withdraw_reply,
    Cooldown, Tier, Transfer, TransferError, DAILY_COINS, DAILY_COOLDOWN_SECONDS,
};
use econ_bot::database::ExploreItem;
use econ_bot::structs::BalType;
use rand::rngs::StdRng;
use rand::SeedableRng;

fn to_bank(coins: i64) -> Result<Transfer, TransferError> {
    Ok(Transfer { from: BalType::Wallet, to: BalType::Bank, coins })
}

fn to_wallet(coins: i64) -> Result<Transfer, TransferError> {
    Ok(Transfer { from: BalType::Bank, to: BalType::Wallet, coins })
}

#[test]
fn deposit_all_moves_the_whole_wallet() {
    assert_eq!(deposit("all", 120), to_bank(120));
}

#[test]
fn deposit_a_number_of_coins() {
    assert_eq!(deposit("50", 120), to_bank(50));
    assert_eq!(deposit("+120", 120), to_bank(120));
}

#[test]
fn deposit_refusals() {
    assert_eq!(deposit("lots", 120), Err(TransferError::NotNumeric));
    assert_eq!(deposit("ALL", 120), Err(TransferError::NotNumeric));
    assert_eq!(deposit("", 120), Err(TransferError::NotNumeric));
    assert_eq!(deposit("0", 120), Err(TransferError::BelowMinimum));
    assert_eq!(deposit("-5", 120), Err(TransferError::BelowMinimum));
    assert_eq!(deposit("all", 0), Err(TransferError::BelowMinimum));
    assert_eq!(deposit("121", 120), Err(TransferError::MoreThanHeld));
}

#[test]
fn withdraw_moves_from_bank_to_wallet() {
    assert_eq!(withdraw("all", 7), to_wallet(7));
    assert_eq!(withdraw("3", 7), to_wallet(3));
    assert_eq!(withdraw("8", 7), Err(TransferError::MoreThanHeld));
    assert_eq!(withdraw("x", 7), Err(TransferError::NotNumeric));
}

#[test]
fn transfer_changes_sum_to_zero() {
    let t = deposit("40", 100).unwrap();
    assert_eq!(t.change_for(BalType::Wallet), -40);
    assert_eq!(t.change_for(BalType::Bank), 40);
    let w = withdraw("15", 100).unwrap();
    assert_eq!(w.change_for(BalType::Wallet), 15);
    assert_eq!(w.change_for(BalType::Bank), -15);
}

#[test]
fn deposit_replies() {
    assert_eq!(deposit_reply(&to_bank(50)), "Deposited 50 <:coin:1119247275093413940> into your bank");
    assert_eq!(
        deposit_reply(&Err(TransferError::NotNumeric)),
        "You have to provide a numeric value, or 'all' to deposit everything in your wallet!"
    );
    assert_eq!(deposit_reply(&Err(TransferError::BelowMinimum)), "You can only deposit a minimum of one coin!");
    assert_eq!(
        deposit_reply(&Err(TransferError::MoreThanHeld)),
        "You can't deposit more coins than you already have in your wallet!"
    );
}

#[test]
fn withdraw_replies() {
    assert_eq!(withdraw_reply(&to_wallet(9)), "Withdrew 9 <:coin:1119247275093413940> from your bank");
    assert_eq!(
        withdraw_reply(&Err(TransferError::NotNumeric)),
        "You have to provide a numeric value, or 'all' to withdraw everything from your bank!"
    );
    assert_eq!(withdraw_reply(&Err(TransferError::BelowMinimum)), "You can only withdraw a minimum of one coin!");
    assert_eq!(
        withdraw_reply(&Err(TransferError::MoreThanHeld)),
        "You can't withdraw more coins than you already have in your bank!"
    );
}

#[test]
fn balance_total_line() {
    assert_eq!(balance(10, 20), "\u{200b}\n**Total** - 30 <:coin:1119247275093413940>\n\u{200b}");
    assert_eq!(balance(-10, 3), "\u{200b}\n**Total** - -7 <:coin:1119247275093413940>\n\u{200b}");
}

#[test]
fn daily_constants() {
    assert_eq!(DAILY_COINS, 250);
    assert_eq!(DAILY_COOLDOWN_SECONDS, 86400);
}

#[test]
fn daily_without_history_is_ready() {
    assert_eq!(daily_cooldown(None, 5, 0), Cooldown::Ready);
}

#[test]
fn daily_right_after_a_command_waits_a_day() {
    assert_eq!(daily_cooldown(Some(1000), 1000, 0), Cooldown::Wait { hours: 24, minutes: 0, seconds: 0 });
    assert_eq!(daily_cooldown(Some(1000), 1001, 5), Cooldown::Wait { hours: 23, minutes: 59, seconds: 58 });
}

#[test]
fn daily_exactly_at_the_end_of_the_day() {
    assert_eq!(daily_cooldown(Some(1000), 87400, 0), Cooldown::Wait { hours: 0, minutes: 0, seconds: 0 });
    assert_eq!(daily_cooldown(Some(1000), 87400, 1), Cooldown::Ready);
    assert_eq!(daily_cooldown(Some(1000), 87401, 0), Cooldown::Ready);
}

#[test]
fn daily_wait_parts_add_up() {
    let last = 1_700_000_000;
    let now = last + 12_345;
    match daily_cooldown(Some(last), now, 0) {
        Cooldown::Wait { hours, minutes, seconds } => {
            assert_eq!(hours * 3600 + minutes * 60 + seconds, (86400 - 12_345) as u64);
            assert!(minutes < 60 && seconds < 60);
        }
        Cooldown::Ready => panic!("a day has not passed"),
    }
}

#[test]
fn cooldown_message_text() {
    assert_eq!(
        cooldown_message(23, 59, 58),
        "You can't use this command for another 23 hours, 59 minutes and 58 seconds"
    );
}

fn item(name: &str, tier: &str) -> ExploreItem {
    ExploreItem {
        id: 1,
        name: name.to_string(),
        tier: tier.to_string(),
        sell_price: 10,
        health: None,
        emoji_id: 42,
        emoji_name: "thing".to_string(),
    }
}

#[test]
fn explore_text_layout() {
    assert_eq!(
        explore_found_text("Stick", "<:stick:1>", "Common"),
        "\u{200b}\n<:magnifying_glass:1120190421067374642> *You went exploring and found... *\n\n__**Found**__\n`-` **x1** Stick <:stick:1> (Common)\n"
    );
}

#[test]
fn explore_description_title_cases_name_and_tier() {
    let it = item("golden apple of the sun", "legendary");
    assert_eq!(
        explore(&it, Tier::Legendary),
        "\u{200b}\n<:magnifying_glass:1120190421067374642> *You went exploring and found... *\n\n__**Found**__\n`-` **x1** Golden Apple of the Sun <:thing:42> (Legendary)\n"
    );
    assert!(explore(&item("stick", "common"), Tier::Rare).contains("**x1** Stick <:thing:42> (Rare)"));
}

#[test]
fn tier_names_and_weights() {
    assert_eq!(Tier::Common.name(), "common");
    assert_eq!(Tier::Rare.name(), "rare");
    assert_eq!(Tier::Legendary.name(), "legendary");
    assert_eq!(Tier::Common.weight() + Tier::Rare.weight() + Tier::Legendary.weight(), 100);
}

#[test]
fn explore_draws_from_all_three_tiers() {
    assert_eq!(explore_tiers(), [Tier::Common, Tier::Rare, Tier::Legendary]);
    let weights: Vec<u32> = explore_tiers().iter().map(|t| t.weight()).collect();
    assert_eq!(weights, vec![80, 15, 5]);
}

#[test]
fn roll_tier_favours_common() {
    let mut rng = StdRng::seed_from_u64(7);
    let mut counts = [0usize; 3];
    for _ in 0..10_000 {
        match roll_tier(&mut rng) {
            Tier::Common => counts[0] += 1,
            Tier::Rare => counts[1] += 1,
            Tier::Legendary => counts[2] += 1,
        }
    }
    assert!(counts[0] > 7_000 && counts[0] < 9_000);
    assert!(counts[1] > 1_000 && counts[1] < 2_000);
    assert!(counts[2] > 200 && counts[2] < 800);
}

#[test]
fn pick_item_from_the_tier() {
    let mut rng = StdRng::seed_from_u64(1);
    let none: Vec<ExploreItem> = Vec::new();
    assert!(pick_item(&mut rng, &none).is_none());
    let items = vec![item("a", "common"), item("b", "common")];
    let picked = pick_item(&mut rng, &items).unwrap();
    assert!(picked.name == "a" || picked.name == "b");
}

#[test]
fn thumbnail_is_one_of_the_pictures() {
    let mut rng = StdRng::seed_from_u64(3);
    for _ in 0..20 {
        let t = explore_thumbnail(&mut rng);
        assert!(t.starts_with("https://cdn.discordapp.com/attachments/1120178584561143898/"));
        assert!(t.ends_with(".png"));
    }
}

#[test]
fn tier_names_read_back() {
    for t in [Tier::Common, Tier::Rare, Tier::Legendary] {
        assert_eq!(tier_named(t.name()), Some(t));
    }
    assert_eq!(tier_named("Common"), None);
    assert_eq!(tier_named("mythic"), None);
    assert_eq!(tier_named(""), None);
}
