//! Verified core of the 8b8t services: text rules, number formatting,
//! chat and authentication decisions, player statistics and the Discord bot's
//! message building.
pub mod text;
pub mod numtext;
pub mod binary64;
pub mod display;
pub mod identity;
pub mod bot;
pub mod hashing;
pub mod api;
pub mod tensor;
pub mod chat;
pub mod guard;
