//! The ledger of coins: every change to a balance is recorded as an entry,
//! and a balance is the sum of its entries.
use vstd::prelude::*;

verus! {

/// Where a user's coins are kept.
#[derive(Clone, Copy, Debug, PartialEq, Eq, Structural)]
pub enum BalType {
    Wallet,
    Bank,
}

/// One recorded change to a balance.
#[derive(Clone, Copy, Debug, PartialEq, Eq, Structural)]
pub struct LedgerEntry {
    pub user_id: i64,
    pub guild_id: i64,
    pub coins: i64,
    pub bal_type: BalType,
}

/// The entry belongs to the balance of the given type of a user in a guild.
pub open spec fn entry_counts(e: LedgerEntry, user_id: i64, guild_id: i64, bal_type: BalType) -> bool {
    e.user_id == user_id && e.guild_id == guild_id && e.bal_type == bal_type
}

/// The balance of the given type of a user in a guild: the sum of the coins
/// of its entries (zero when it has none).
pub open spec fn balance_sum(
    entries: Seq<LedgerEntry>,
    user_id: i64,
    guild_id: i64,
    bal_type: BalType,
) -> int
    decreases entries.len(),
{
    if entries.len() == 0 {
        0
    } else {
        balance_sum(entries.drop_last(), user_id, guild_id, bal_type) + if entry_counts(
            entries.last(),
            user_id,
            guild_id,
            bal_type,
        ) {
            entries.last().coins as int
        } else {
            0int
        }
    }
}

/// The ledger entries that hold the bot's balances.
pub struct Data {
    entries: Vec<LedgerEntry>,
}

impl Data {
    /// The entries, oldest first.
    pub closed spec fn entries_view(&self) -> Seq<LedgerEntry> {
        self.entries@
    }

    /// A ledger holding the given entries, oldest first.
    pub fn from_entries(entries: Vec<LedgerEntry>) -> (d: Data)
        ensures
            d.entries_view() == entries@,
    {
        Data { entries }
    }

    /// The entries, oldest first.
    pub fn entries(&self) -> (es: &Vec<LedgerEntry>)
        ensures
            es@ == self.entries_view(),
    {
        &self.entries
    }

    /// The balance of the given type of a user in a guild: the sum of its
    /// entries, zero when there are none; `None` when the sum lies outside
    /// the range of `i64`, which a balance cannot hold.
    pub fn fetch_balance(&self, user_id: i64, guild_id: i64, bal_type: BalType) -> (b: Option<i64>)
        ensures
            ({
                let total = balance_sum(self.entries_view(), user_id, guild_id, bal_type);
                if i64::MIN <= total <= i64::MAX {
                    b == Some(total as i64)
                } else {
                    b is None
                }
            }),
    {
        let n = self.entries.len();
        let mut acc: i128 = 0;
        for i in 0..n
            invariant
                n == self.entries@.len(),
                n <= usize::MAX,
                acc == balance_sum(self.entries@.take(i as int), user_id, guild_id, bal_type),
                -9223372036854775808 * (i as int) <= acc <= 9223372036854775808 * (i as int),
        {
            let e = self.entries[i];
            assert(self.entries@.take(i + 1).drop_last() =~= self.entries@.take(i as int));
            if e.user_id == user_id && e.guild_id == guild_id && e.bal_type == bal_type {
                acc = acc + e.coins as i128;
            }
        }
        assert(self.entries@.take(n as int) =~= self.entries@);
        if i64::MIN as i128 <= acc && acc <= i64::MAX as i128 {
            Some(acc as i64)
        } else {
            None
        }
    }

    /// Records a change of `amount` coins to the balance of the given type
    /// of a user in a guild.
    pub fn edit_balance(&mut self, user_id: i64, guild_id: i64, amount: i64, bal_type: BalType)
        ensures
            final(self).entries_view() == old(self).entries_view().push(
                LedgerEntry { user_id, guild_id, coins: amount, bal_type },
            ),
    {
        self.entries.push(LedgerEntry { user_id, guild_id, coins: amount, bal_type });
    }
}

/// Law: after a change of `amount` is recorded for a balance, that balance
/// is `amount` more than before, and every other balance is as it was.
pub proof fn law_read_after_edit(
    entries: Seq<LedgerEntry>,
    user_id: i64,
    guild_id: i64,
    amount: i64,
    bal_type: BalType,
    other_user: i64,
    other_guild: i64,
    other_type: BalType,
)
    ensures
        ({
            let after = entries.push(LedgerEntry { user_id, guild_id, coins: amount, bal_type });
            &&& balance_sum(after, user_id, guild_id, bal_type) == balance_sum(
                entries,
                user_id,
                guild_id,
                bal_type,
            ) + amount
            &&& (other_user != user_id || other_guild != guild_id || other_type != bal_type)
                ==> balance_sum(after, other_user, other_guild, other_type) == balance_sum(
                entries,
                other_user,
                other_guild,
                other_type,
            )
        }),
{
    let after = entries.push(LedgerEntry { user_id, guild_id, coins: amount, bal_type });
    assert(after.drop_last() =~= entries);
}

} // verus!
