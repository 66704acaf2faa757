//! The records that the bot keeps: commands that were run, and the items
//! that can be found by exploring.
use vstd::prelude::*;
use crate::text::{signed_decimal, push_char, push_signed_decimal};

verus! {

/// One command that was run, as the usage log records it.
pub struct Command {
    pub guild_id: i64,
    pub author_id: i64,
    /// When the command was run, in seconds since the Unix epoch (UTC).
    pub used: i64,
    pub prefix: String,
    pub command: String,
    pub slash: bool,
    pub failed: Option<bool>,
}

/// An item that exploring can turn up.
pub struct ExploreItem {
    pub id: i16,
    pub name: String,
    pub tier: String,
    pub sell_price: i64,
    pub health: Option<i16>,
    pub emoji_id: i64,
    pub emoji_name: String,
}

/// The chat markup of a custom emoji: `<:name:id>`.
pub open spec fn emoji_markup(name: Seq<char>, id: int) -> Seq<char> {
    seq!['<', ':'] + name + seq![':'] + signed_decimal(id) + seq!['>']
}

impl ExploreItem {
    /// The item's emoji, written as chat markup.
    pub fn emoji(&self) -> (s: String)
        ensures
            s@ == emoji_markup(self.emoji_name@, self.emoji_id as int),
    {
        let mut s = String::new();
        push_char(&mut s, '<');
        push_char(&mut s, ':');
        s.append(self.emoji_name.as_str());
        push_char(&mut s, ':');
        push_signed_decimal(&mut s, self.emoji_id);
        push_char(&mut s, '>');
        assert(s@ =~= emoji_markup(self.emoji_name@, self.emoji_id as int));
        s
    }
}

} // verus!
