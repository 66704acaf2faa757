//! Moving coins between wallet and bank, the daily reward and its
//! cooldown, and exploring for items.
use vstd::prelude::*;
use rand::rngs::StdRng;
use rand::seq::SliceRandom;
use crate::structs::{BalType, LedgerEntry, balance_sum};
use crate::database::{ExploreItem, emoji_markup};
use crate::text::{
    chars_of, parse_i64, parse_decimal_i64, signed_decimal, decimal,
    push_decimal, push_signed_decimal, titlecase_of, title_case,
};

verus! {

/// The chat markup of the coin emoji.
pub const COIN_EMOJI: &'static str = "<:coin:1119247275093413940>";

/// The coins that claiming the daily reward puts in the wallet.
pub const DAILY_COINS: i64 = 250;

/// How long after a use of a command the daily reward can be claimed again, in seconds.
pub const DAILY_COOLDOWN_SECONDS: i64 = 86400;

/// Why coins could not be moved.
#[derive(Clone, Copy, Debug, PartialEq, Eq, Structural)]
pub enum TransferError {
    /// The amount was neither `all` nor a whole number.
    NotNumeric,
    /// The amount was less than one coin.
    BelowMinimum,
    /// The amount was more than the balance it would come from.
    MoreThanHeld,
}

/// Coins to move from one balance to the other.
#[derive(Clone, Copy, Debug, PartialEq, Eq, Structural)]
pub struct Transfer {
    pub from: BalType,
    pub to: BalType,
    pub coins: i64,
}

/// The amount that the text `amount` asks for, out of `held` coins: all of
/// them for `all`, else the number written.
pub open spec fn requested_coins(amount: Seq<char>, held: i64) -> Option<i64> {
    if amount == seq!['a', 'l', 'l'] {
        Some(held)
    } else {
        parse_decimal_i64(amount)
    }
}

/// How many coins a request for `amount` out of `held` moves, or why it
/// moves none.
pub open spec fn transfer_coins(amount: Seq<char>, held: i64) -> Result<i64, TransferError> {
    match requested_coins(amount, held) {
        None => Err(TransferError::NotNumeric),
        Some(n) => if n < 1 {
            Err(TransferError::BelowMinimum)
        } else if n > held {
            Err(TransferError::MoreThanHeld)
        } else {
            Ok(n)
        },
    }
}

/// The outcome of asking to move `amount` coins out of `held` from one
/// balance to the other.
pub open spec fn transfer_outcome(
    amount: Seq<char>,
    held: i64,
    from: BalType,
    to: BalType,
) -> Result<Transfer, TransferError> {
    match transfer_coins(amount, held) {
        Ok(n) => Ok(Transfer { from, to, coins: n }),
        Err(e) => Err(e),
    }
}

/// How a transfer changes the balance of the given type.
pub open spec fn balance_change(t: Transfer, bal_type: BalType) -> int {
    if bal_type == t.from {
        -t.coins
    } else if bal_type == t.to {
        t.coins as int
    } else {
        0
    }
}

fn is_all(cs: &Vec<char>) -> (b: bool)
    ensures
        b == (cs@ == seq!['a', 'l', 'l']),
{
    let b = cs.len() == 3 && cs[0] == 'a' && cs[1] == 'l' && cs[2] == 'l';
    if b {
        assert(cs@ =~= seq!['a', 'l', 'l']);
    }
    b
}

fn plan_transfer(amount: &str, held: i64) -> (r: Result<i64, TransferError>)
    ensures
        r == transfer_coins(amount@, held),
{
    let cs = chars_of(amount);
    let requested = if is_all(&cs) {
        Some(held)
    } else {
        parse_i64(amount)
    };
    match requested {
        None => Err(TransferError::NotNumeric),
        Some(n) => if n < 1 {
            Err(TransferError::BelowMinimum)
        } else if n > held {
            Err(TransferError::MoreThanHeld)
        } else {
            Ok(n)
        },
    }
}

/// Deposit some money from your wallet into your bank for safekeeping:
/// `amount` is `all` or a number of coins, `wallet` the coins in the wallet.
pub fn deposit(amount: &str, wallet: i64) -> (r: Result<Transfer, TransferError>)
    ensures
        r == transfer_outcome(amount@, wallet, BalType::Wallet, BalType::Bank),
{
    match plan_transfer(amount, wallet) {
        Ok(n) => Ok(Transfer { from: BalType::Wallet, to: BalType::Bank, coins: n }),
        Err(e) => Err(e),
    }
}

/// Withdraw some money from your bank into your wallet: `amount` is `all`
/// or a number of coins, `bank` the coins in the bank.
pub fn withdraw(amount: &str, bank: i64) -> (r: Result<Transfer, TransferError>)
    ensures
        r == transfer_outcome(amount@, bank, BalType::Bank, BalType::Wallet),
{
    match plan_transfer(amount, bank) {
        Ok(n) => Ok(Transfer { from: BalType::Bank, to: BalType::Wallet, coins: n }),
        Err(e) => Err(e),
    }
}

impl Transfer {
    /// The amount to record against the balance of the given type: the
    /// coins taken out of the source, put into the destination.
    pub fn change_for(&self, bal_type: BalType) -> (c: i64)
        requires
            self.coins > i64::MIN,
        ensures
            c == balance_change(*self, bal_type),
    {
        if bal_type == self.from {
            -self.coins
        } else if bal_type == self.to {
            self.coins
        } else {
            0
        }
    }
}

/// The reply to a deposit.
pub open spec fn deposit_reply_text(r: Result<Transfer, TransferError>) -> Seq<char> {
    match r {
        Ok(t) => "Deposited "@ + signed_decimal(t.coins as int)
            + " <:coin:1119247275093413940> into your bank"@,
        Err(TransferError::NotNumeric) =>
            "You have to provide a numeric value, or 'all' to deposit everything in your wallet!"@,
        Err(TransferError::BelowMinimum) => "You can only deposit a minimum of one coin!"@,
        Err(TransferError::MoreThanHeld) =>
            "You can't deposit more coins than you already have in your wallet!"@,
    }
}

/// The reply to a withdrawal.
pub open spec fn withdraw_reply_text(r: Result<Transfer, TransferError>) -> Seq<char> {
    match r {
        Ok(t) => "Withdrew "@ + signed_decimal(t.coins as int)
            + " <:coin:1119247275093413940> from your bank"@,
        Err(TransferError::NotNumeric) =>
            "You have to provide a numeric value, or 'all' to withdraw everything from your bank!"@,
        Err(TransferError::BelowMinimum) => "You can only withdraw a minimum of one coin!"@,
        Err(TransferError::MoreThanHeld) =>
            "You can't withdraw more coins than you already have in your bank!"@,
    }
}

/// The message that answers a deposit.
pub fn deposit_reply(r: &Result<Transfer, TransferError>) -> (s: String)
    ensures
        s@ == deposit_reply_text(*r),
{
    match r {
        Ok(t) => {
            let mut s = String::from_str("Deposited ");
            push_signed_decimal(&mut s, t.coins);
            s.append(" <:coin:1119247275093413940> into your bank");
            s
        },
        Err(TransferError::NotNumeric) => String::from_str(
            "You have to provide a numeric value, or 'all' to deposit everything in your wallet!",
        ),
        Err(TransferError::BelowMinimum) => String::from_str(
            "You can only deposit a minimum of one coin!",
        ),
        Err(TransferError::MoreThanHeld) => String::from_str(
            "You can't deposit more coins than you already have in your wallet!",
        ),
    }
}

/// The message that answers a withdrawal.
pub fn withdraw_reply(r: &Result<Transfer, TransferError>) -> (s: String)
    ensures
        s@ == withdraw_reply_text(*r),
{
    match r {
        Ok(t) => {
            let mut s = String::from_str("Withdrew ");
            push_signed_decimal(&mut s, t.coins);
            s.append(" <:coin:1119247275093413940> from your bank");
            s
        },
        Err(TransferError::NotNumeric) => String::from_str(
            "You have to provide a numeric value, or 'all' to withdraw everything from your bank!",
        ),
        Err(TransferError::BelowMinimum) => String::from_str(
            "You can only withdraw a minimum of one coin!",
        ),
        Err(TransferError::MoreThanHeld) => String::from_str(
            "You can't withdraw more coins than you already have in your bank!",
        ),
    }
}

/// The first line of the balance card: the total of wallet and bank with
/// the coin emoji, between blank lines.
pub open spec fn balance_total_text(wallet: i64, bank: i64) -> Seq<char> {
    "\u{200b}\n**Total** - "@ + signed_decimal(wallet + bank)
        + " <:coin:1119247275093413940>\n\u{200b}"@
}

/// The description of the balance card of a user with the given wallet and bank.
pub fn balance(wallet: i64, bank: i64) -> (s: String)
    requires
        i64::MIN <= wallet + bank <= i64::MAX,
    ensures
        s@ == balance_total_text(wallet, bank),
{
    let mut s = String::from_str("\u{200b}\n**Total** - ");
    push_signed_decimal(&mut s, wallet + bank);
    s.append(" <:coin:1119247275093413940>\n\u{200b}");
    s
}

/// Whether the daily reward can be claimed, or how long is left until it can.
#[derive(Clone, Copy, Debug, PartialEq, Eq, Structural)]
pub enum Cooldown {
    Ready,
    Wait { hours: u64, minutes: u64, seconds: u64 },
}

/// The moment `(secs, nanos)` lies strictly after `until` (whole seconds).
pub open spec fn is_after(secs: int, nanos: int, until: int) -> bool {
    secs > until || (secs == until && nanos > 0)
}

/// The whole seconds from the moment `(secs, nanos)` until `until`.
pub open spec fn whole_seconds_until(secs: int, nanos: int, until: int) -> int {
    until - secs - if nanos > 0 {
        1int
    } else {
        0int
    }
}

/// The state of the daily cooldown for a user whose last command was run
/// at `last_used` (seconds since the epoch, or `None` if there was none),
/// seen at the moment `now_secs` seconds and `now_nanos` nanoseconds after
/// the epoch.
pub open spec fn cooldown_state(last_used: Option<i64>, now_secs: i64, now_nanos: u32) -> Cooldown {
    match last_used {
        None => Cooldown::Ready,
        Some(last) => {
            let until = last + DAILY_COOLDOWN_SECONDS;
            if is_after(now_secs as int, now_nanos as int, until) {
                Cooldown::Ready
            } else {
                let left = whole_seconds_until(now_secs as int, now_nanos as int, until);
                Cooldown::Wait {
                    hours: (left / 3600) as u64,
                    minutes: ((left % 3600) / 60) as u64,
                    seconds: (left % 60) as u64,
                }
            }
        },
    }
}

/// Decides whether the daily reward can be claimed: it can if the user has
/// run no command yet, or if a day has passed since the last one; otherwise
/// the time left is given in hours, minutes and seconds.
pub fn daily_cooldown(last_used: Option<i64>, now_secs: i64, now_nanos: u32) -> (c: Cooldown)
    ensures
        c == cooldown_state(last_used, now_secs, now_nanos),
{
    match last_used {
        None => Cooldown::Ready,
        Some(last) => {
            let until: i128 = last as i128 + DAILY_COOLDOWN_SECONDS as i128;
            let now: i128 = now_secs as i128;
            if now > until || (now == until && now_nanos > 0) {
                Cooldown::Ready
            } else {
                let left: i128 = until - now - if now_nanos > 0 {
                    1i128
                } else {
                    0i128
                };
                assert(0 <= left);
                let hours = (left / 3600) as u64;
                let minutes = ((left % 3600) / 60) as u64;
                let seconds = (left % 60) as u64;
                Cooldown::Wait { hours, minutes, seconds }
            }
        },
    }
}

/// The message telling a user how long to wait for the daily reward.
pub open spec fn cooldown_message_text(hours: u64, minutes: u64, seconds: u64) -> Seq<char> {
    "You can't use this command for another "@ + decimal(hours as nat) + " hours, "@ + decimal(
        minutes as nat,
    ) + " minutes and "@ + decimal(seconds as nat) + " seconds"@
}

/// The message telling a user how long to wait for the daily reward.
pub fn cooldown_message(hours: u64, minutes: u64, seconds: u64) -> (s: String)
    ensures
        s@ == cooldown_message_text(hours, minutes, seconds),
{
    let mut s = String::from_str("You can't use this command for another ");
    push_decimal(&mut s, hours);
    s.append(" hours, ");
    push_decimal(&mut s, minutes);
    s.append(" minutes and ");
    push_decimal(&mut s, seconds);
    s.append(" seconds");
    s
}

/// Law: with no command run before, the daily reward can be claimed; after
/// a command run at `last`, it can be claimed exactly when the moment now
/// lies strictly after `last` plus 86400 seconds, and before then the wait
/// shown is the whole seconds left until that moment, split into hours and
/// minutes and seconds below sixty.
pub proof fn law_cooldown_wait_adds_up(last: i64, now_secs: i64, now_nanos: u32)
    ensures
        cooldown_state(None, now_secs, now_nanos) == Cooldown::Ready,
        (cooldown_state(Some(last), now_secs, now_nanos) == Cooldown::Ready) <==> (now_secs > last
            + 86400 || (now_secs == last + 86400 && now_nanos > 0)),
        cooldown_state(Some(last), now_secs, now_nanos) matches Cooldown::Wait { hours, minutes, seconds }
            ==> {
            &&& minutes < 60
            &&& seconds < 60
            &&& hours * 3600 + minutes * 60 + seconds == last + 86400 - now_secs - if now_nanos > 0 {
                1int
            } else {
                0int
            }
        },
{
    let until = last + DAILY_COOLDOWN_SECONDS;
    if !is_after(now_secs as int, now_nanos as int, until) {
        let left = whole_seconds_until(now_secs as int, now_nanos as int, until);
        assert(left >= 0);
        assert(left == (left / 3600) * 3600 + ((left % 3600) / 60) * 60 + left % 60) by (nonlinear_arith)
            requires left >= 0;
        assert(left / 3600 < 0x1_0000_0000_0000_0000) by (nonlinear_arith)
            requires left >= 0, left <= 0x2_0000_0000_0000_0000;
    }
}

/// A random number generator.
#[verifier::external_type_specification]
#[verifier::external_body]
pub struct ExStdRng(StdRng);

/// How rare an item found by exploring is.
#[derive(Clone, Copy, Debug, PartialEq, Eq, Structural)]
pub enum Tier {
    Common,
    Rare,
    Legendary,
}

/// The name under which a tier's items are stored.
pub open spec fn tier_name_text(t: Tier) -> Seq<char> {
    match t {
        Tier::Common => "common"@,
        Tier::Rare => "rare"@,
        Tier::Legendary => "legendary"@,
    }
}

/// The tier stored under the given name, if any: only `common`, `rare` and
/// `legendary`, written exactly so, name a tier.
pub open spec fn tier_of_name(s: Seq<char>) -> Option<Tier> {
    if s == tier_name_text(Tier::Common) {
        Some(Tier::Common)
    } else if s == tier_name_text(Tier::Rare) {
        Some(Tier::Rare)
    } else if s == tier_name_text(Tier::Legendary) {
        Some(Tier::Legendary)
    } else {
        None
    }
}

/// Whether a string of characters spells out the given text.
fn chars_spell(cs: &Vec<char>, text: &str) -> (b: bool)
    ensures
        b == (cs@ == text@),
{
    let ts = chars_of(text);
    if cs.len() != ts.len() {
        return false;
    }
    let mut i: usize = 0;
    while i < cs.len()
        invariant
            cs@.len() == ts@.len(),
            ts@ == text@,
            i <= cs@.len(),
            forall|j: int| 0 <= j < i ==> cs@[j] == ts@[j],
        decreases cs@.len() - i,
    {
        if cs[i] != ts[i] {
            return false;
        }
        i = i + 1;
    }
    assert(cs@ =~= ts@);
    true
}

/// The tier stored under the given name: `common`, `rare` or `legendary`,
/// written exactly so; `None` for any other text, which names no tier that
/// exploring can find.
pub fn tier_named(s: &str) -> (t: Option<Tier>)
    ensures
        t == tier_of_name(s@),
{
    let cs = chars_of(s);
    if chars_spell(&cs, Tier::Common.name()) {
        Some(Tier::Common)
    } else if chars_spell(&cs, Tier::Rare.name()) {
        Some(Tier::Rare)
    } else if chars_spell(&cs, Tier::Legendary.name()) {
        Some(Tier::Legendary)
    } else {
        None
    }
}

/// Law: a tier's stored name names that tier, so an item stored under a
/// tier that `tier_named` accepts can be found by exploring that tier.
pub proof fn law_tier_name_round_trip(t: Tier)
    ensures
        tier_of_name(tier_name_text(t)) == Some(t),
{
    reveal_strlit("common");
    reveal_strlit("rare");
    reveal_strlit("legendary");
    assert("common"@.len() == 6 && "rare"@.len() == 4 && "legendary"@.len() == 9);
    assert(tier_name_text(Tier::Common) != tier_name_text(Tier::Rare));
    assert(tier_name_text(Tier::Common) != tier_name_text(Tier::Legendary));
    assert(tier_name_text(Tier::Rare) != tier_name_text(Tier::Legendary));
}

/// The relative chance of a tier when exploring: 80 common, 15 rare, 5 legendary.
pub open spec fn tier_weight_of(t: Tier) -> u32 {
    match t {
        Tier::Common => 80,
        Tier::Rare => 15,
        Tier::Legendary => 5,
    }
}

/// The sum of the weights of the tiers.
pub open spec fn total_weight(tiers: Seq<Tier>) -> nat
    decreases tiers.len(),
{
    if tiers.len() == 0 {
        0
    } else {
        total_weight(tiers.drop_last()) + tier_weight_of(tiers.last()) as nat
    }
}

impl Tier {
    /// The name under which the tier's items are stored.
    pub fn name(&self) -> (s: &'static str)
        ensures
            s@ == tier_name_text(*self),
    {
        match self {
            Tier::Common => "common",
            Tier::Rare => "rare",
            Tier::Legendary => "legendary",
        }
    }

    /// The tier's relative chance when exploring.
    pub fn weight(&self) -> (w: u32)
        ensures
            w == tier_weight_of(*self),
    {
        match self {
            Tier::Common => 80,
            Tier::Rare => 15,
            Tier::Legendary => 5,
        }
    }
}

/// Draws one of the tiers with a chance in proportion to its weight.
///
/// Trusted: `SliceRandom::choose_weighted` of `rand` 0.8 on a slice, with
/// each tier weighted by `Tier::weight`. As its source shows, it fails
/// (`None` here) exactly when the slice is empty or all weights are zero
/// (no `u32` weight is invalid), and otherwise gives one of the slice's
/// items; the running sum of the weights is a `u32`, so the weights must
/// not add up to more than `u32::MAX`. Which item comes out is left open.
#[verifier::external_body]
fn choose_weighted_tier(rng: &mut StdRng, tiers: &[Tier]) -> (r: Option<Tier>)
    requires
        total_weight(tiers@) <= u32::MAX,
    ensures
        r is None <==> (tiers@.len() == 0 || total_weight(tiers@) == 0),
        r matches Some(t) ==> tiers@.contains(t),
{
    tiers.choose_weighted(rng, |t: &Tier| t.weight()).ok().copied()
}

/// Picks one item of a slice at random.
///
/// Trusted: `SliceRandom::choose` of `rand` 0.8, which gives `None` for an
/// empty slice and otherwise one of its items. Which one is left open.
#[verifier::external_body]
fn choose_one<'a, T>(rng: &mut StdRng, items: &'a [T]) -> (r: Option<&'a T>)
    ensures
        r is None <==> items@.len() == 0,
        r matches Some(x) ==> items@.contains(*x),
{
    items.choose(rng)
}

/// The tiers that exploring draws from, each once, in the order common,
/// rare, legendary.
pub open spec fn explore_tier_list() -> Seq<Tier> {
    seq![Tier::Common, Tier::Rare, Tier::Legendary]
}

/// The tiers that exploring draws from: common, rare and legendary, whose
/// weights (`Tier::weight`) are 80, 15 and 5, so 100 in all.
pub fn explore_tiers() -> (tiers: [Tier; 3])
    ensures
        tiers@ == explore_tier_list(),
        total_weight(tiers@) == 100,
{
    let tiers = [Tier::Common, Tier::Rare, Tier::Legendary];
    proof {
        let s = tiers@;
        assert(s =~= seq![Tier::Common, Tier::Rare, Tier::Legendary]);
        assert(s.drop_last() =~= seq![Tier::Common, Tier::Rare]);
        assert(s.drop_last().drop_last() =~= seq![Tier::Common]);
        assert(s.drop_last().drop_last().drop_last() =~= Seq::<Tier>::empty());
        reveal_with_fuel(total_weight, 4);
    }
    tiers
}

/// Draws the tier of the item found by exploring from `explore_tiers`,
/// each with a chance in proportion to its weight: common, rare or
/// legendary, with chances 80, 15 and 5 in 100. The draw always succeeds;
/// which tier comes out is left to chance.
pub fn roll_tier(rng: &mut StdRng) -> (t: Tier)
    ensures
        explore_tier_list().contains(t),
{
    let tiers = explore_tiers();
    match choose_weighted_tier(rng, &tiers) {
        Some(t) => t,
        None => {
            assert(false);
            Tier::Common
        },
    }
}

/// Picks the item found among those of the drawn tier; `None` when the tier
/// has no items.
pub fn pick_item<'a>(rng: &mut StdRng, items: &'a Vec<ExploreItem>) -> (r: Option<&'a ExploreItem>)
    ensures
        r is None <==> items@.len() == 0,
        r matches Some(x) ==> items@.contains(*x),
{
    choose_one(rng, items.as_slice())
}

/// The pictures that an exploring card may show.
pub open spec fn is_explore_thumbnail(s: Seq<char>) -> bool {
    ||| s == "https://cdn.discordapp.com/attachments/1120178584561143898/1120179397425631302/mountain2.png"@
    ||| s == "https://cdn.discordapp.com/attachments/1120178584561143898/1120179397668909096/mountain1.png"@
    ||| s == "https://cdn.discordapp.com/attachments/1120178584561143898/1120179398528741436/mountain3.png"@
    ||| s == "https://cdn.discordapp.com/attachments/1120178584561143898/1120179397975101471/forest1.png"@
}

/// Picks the picture shown on an exploring card.
pub fn explore_thumbnail(rng: &mut StdRng) -> (s: &'static str)
    ensures
        is_explore_thumbnail(s@),
{
    let thumbnails: [&'static str; 4] = [
        "https://cdn.discordapp.com/attachments/1120178584561143898/1120179397425631302/mountain2.png",
        "https://cdn.discordapp.com/attachments/1120178584561143898/1120179397668909096/mountain1.png",
        "https://cdn.discordapp.com/attachments/1120178584561143898/1120179398528741436/mountain3.png",
        "https://cdn.discordapp.com/attachments/1120178584561143898/1120179397975101471/forest1.png",
    ];
    match choose_one(rng, &thumbnails) {
        Some(t) => *t,
        None => {
            assert(thumbnails@.len() == 4);
            assert(false);
            thumbnails[0]
        },
    }
}

/// The description of an exploring card, for the item's name and the
/// tier's name already title-cased and the item's emoji markup.
pub open spec fn found_text(title_name: Seq<char>, emoji: Seq<char>, title_tier: Seq<char>) -> Seq<char> {
    "\u{200b}\n<:magnifying_glass:1120190421067374642> *You went exploring and found... *\n\n__**Found**__\n`-` **x1** "@
        + title_name + " "@ + emoji + " ("@ + title_tier + ")\n"@
}

/// Writes the description of an exploring card from the title-cased item
/// name, the item's emoji markup and the title-cased tier name.
pub fn explore_found_text(title_name: &str, emoji: &str, title_tier: &str) -> (s: String)
    ensures
        s@ == found_text(title_name@, emoji@, title_tier@),
{
    let mut s = String::from_str(
        "\u{200b}\n<:magnifying_glass:1120190421067374642> *You went exploring and found... *\n\n__**Found**__\n`-` **x1** ",
    );
    s.append(title_name);
    s.append(" ");
    s.append(emoji);
    s.append(" (");
    s.append(title_tier);
    s.append(")\n");
    s
}

/// The description of the card that shows what exploring found: the item's
/// name and its tier title-cased, and the item's emoji.
pub fn explore(item: &ExploreItem, tier: Tier) -> (s: String)
    ensures
        s@ == found_text(
            titlecase_of(item.name@),
            emoji_markup(item.emoji_name@, item.emoji_id as int),
            titlecase_of(tier_name_text(tier)),
        ),
{
    let name = title_case(item.name.as_str());
    let emoji = item.emoji();
    let tier_title = title_case(tier.name());
    explore_found_text(name.as_str(), emoji.as_str(), tier_title.as_str())
}

/// Law: a transfer that a deposit or a withdrawal grants takes at least one
/// coin and no more than the source holds, and leaves the sum of wallet and
/// bank as it was.
pub proof fn law_transfer_conserves_coins(amount: Seq<char>, held: i64, from: BalType, to: BalType)
    requires
        from != to,
        transfer_outcome(amount, held, from, to) is Ok,
    ensures
        ({
            let t = transfer_outcome(amount, held, from, to)->Ok_0;
            &&& 1 <= t.coins <= held
            &&& balance_change(t, BalType::Wallet) + balance_change(t, BalType::Bank) == 0
            &&& held + balance_change(t, from) >= 0
        }),
{
}

/// The ledger after a transfer is recorded for a user in a guild: the
/// coins taken from the source balance, then put into the destination.
pub open spec fn record_transfer(entries: Seq<LedgerEntry>, user_id: i64, guild_id: i64, t: Transfer) -> Seq<
    LedgerEntry,
> {
    entries.push(
        LedgerEntry { user_id, guild_id, coins: -t.coins as i64, bal_type: t.from },
    ).push(LedgerEntry { user_id, guild_id, coins: t.coins, bal_type: t.to })
}

/// Law: when a deposit of `amount` is granted against the user's wallet
/// balance and recorded, the wallet holds the coins less and the bank the
/// coins more, the wallet does not go below zero, and the user's total is
/// unchanged; a withdrawal does the same the other way round.
pub proof fn law_recorded_transfer_moves_coins(
    entries: Seq<LedgerEntry>,
    user_id: i64,
    guild_id: i64,
    amount: Seq<char>,
    deposit: bool,
)
    requires
        ({
            let from = if deposit { BalType::Wallet } else { BalType::Bank };
            let held = balance_sum(entries, user_id, guild_id, from);
            &&& i64::MIN <= held <= i64::MAX
            &&& transfer_outcome(amount, held as i64, from, if deposit { BalType::Bank } else { BalType::Wallet }) is Ok
        }),
    ensures
        ({
            let from = if deposit { BalType::Wallet } else { BalType::Bank };
            let to = if deposit { BalType::Bank } else { BalType::Wallet };
            let held = balance_sum(entries, user_id, guild_id, from);
            let t = transfer_outcome(amount, held as i64, from, to)->Ok_0;
            let after = record_transfer(entries, user_id, guild_id, t);
            &&& balance_sum(after, user_id, guild_id, from) == held - t.coins
            &&& balance_sum(after, user_id, guild_id, from) >= 0
            &&& balance_sum(after, user_id, guild_id, to) == balance_sum(entries, user_id, guild_id, to) + t.coins
            &&& balance_sum(after, user_id, guild_id, BalType::Wallet) + balance_sum(after, user_id, guild_id, BalType::Bank)
                == balance_sum(entries, user_id, guild_id, BalType::Wallet) + balance_sum(entries, user_id, guild_id, BalType::Bank)
        }),
{
    let from = if deposit { BalType::Wallet } else { BalType::Bank };
    let to = if deposit { BalType::Bank } else { BalType::Wallet };
    let held = balance_sum(entries, user_id, guild_id, from);
    let t = transfer_outcome(amount, held as i64, from, to)->Ok_0;
    let first = entries.push(LedgerEntry { user_id, guild_id, coins: -t.coins as i64, bal_type: t.from });
    let after = record_transfer(entries, user_id, guild_id, t);
    law_transfer_conserves_coins(amount, held as i64, from, to);
    assert(t.from == from && t.to == to);
    assert(after.drop_last() =~= first);
    assert(first.drop_last() =~= entries);
    assert(after.last().coins == t.coins);
    assert(first.last().coins == -t.coins);
    assert(balance_sum(first, user_id, guild_id, from) == held - t.coins);
    assert(balance_sum(first, user_id, guild_id, to) == balance_sum(entries, user_id, guild_id, to));
}

} // verus!
