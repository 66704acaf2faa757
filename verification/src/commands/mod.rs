//! The decisions and replies behind the bot's chat commands.
pub mod economy;
pub mod help;
pub mod general;
pub mod stats;
pub mod owner;
