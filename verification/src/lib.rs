//! The decision logic of a Telegram bot that announces newly published
//! documents of a council information system.

pub mod text;
pub mod message_builder;
pub mod lru_cache;
pub mod types;
pub mod response;
pub mod database;
pub mod delivery;
pub mod broadcasting;
pub mod rate_limiter;
pub mod outgoing;
pub mod retrying;
pub mod rich_text;
pub mod channel;
pub mod pattern;
pub mod command;
pub mod keyboard;
pub mod updates;
pub mod bot;
pub mod filter_dialogue;
pub mod registration;
pub mod allris;
pub mod options;
