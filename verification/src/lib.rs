//! The logic of an economy bot for Discord: balances moved between wallet
//! and bank, the daily reward and its cooldown, exploring for items, the
//! help listing of commands, usage statistics and plain-text tables.
use vstd::prelude::*;

pub mod text;
pub mod utils;
pub mod database;
pub mod structs;
pub mod commands;

verus! {
} // verus!
