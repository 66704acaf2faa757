use econ_bot::structs::{BalType, Data, LedgerEntry};

fn entry(user_id: i64, coins: i64, bal_type: BalType) -> LedgerEntry {
    LedgerEntry { user_id, guild_id: 9, coins, bal_type }
}

#[test]
fn empty_ledger_has_zero_balances() {
    let d = Data::from_entries(Vec::new());
    assert_eq!(d.fetch_balance(1, 9, BalType::Wallet), Some(0));
    assert_eq!(d.fetch_balance(1, 9, BalType::Bank), Some(0));
}

#[test]
fn balance_sums_matching_entries() {
    let d = Data::from_entries(vec![
        entry(1, 250, BalType::Wallet),
        entry(1, -50, BalType::Wallet),
        entry(1, 50, BalType::Bank),
        entry(2, 1000, BalType::Wallet),
        LedgerEntry { user_id: 1, guild_id: 8, coins: 7, bal_type: BalType::Wallet },
    ]);
    assert_eq!(d.fetch_balance(1, 9, BalType::Wallet), Some(200));
    assert_eq!(d.fetch_balance(1, 9, BalType::Bank), Some(50));
    assert_eq!(d.fetch_balance(2, 9, BalType::Wallet), Some(1000));
    assert_eq!(d.fetch_balance(1, 8, BalType::Wallet), Some(7));
}

#[test]
fn read_after_edit() {
    let mut d = Data::from_entries(vec![entry(1, 10, BalType::Wallet)]);
    d.edit_balance(1, 9, 25, BalType::Wallet);
    assert_eq!(d.fetch_balance(1, 9, BalType::Wallet), Some(35));
    assert_eq!(d.fetch_balance(1, 9, BalType::Bank), Some(0));
    assert_eq!(d.entries().len(), 2);
}

#[test]
fn totals_beyond_i64_are_refused_but_partial_overflow_is_fine() {
    let d = Data::from_entries(vec![entry(1, i64::MAX, BalType::Wallet), entry(1, 1, BalType::Wallet)]);
    assert_eq!(d.fetch_balance(1, 9, BalType::Wallet), None);
    let e = Data::from_entries(vec![
        entry(1, i64::MAX, BalType::Wallet),
        entry(1, i64::MAX, BalType::Wallet),
        entry(1, -i64::MAX, BalType::Wallet),
    ]);
    assert_eq!(e.fetch_balance(1, 9, BalType::Wallet), Some(i64::MAX));
}
