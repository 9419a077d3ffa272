//! Automation core for a chat game bot that speaks through rich messages:
//! a heuristic classifier over embeds and buttons, a decision engine for
//! claiming offers, a cooldown and budget tracker, a fuzzy-matched
//! preference store with a verified serial form, and a single-slot lookup
//! coordinator.
pub mod codec;
pub mod config;
pub mod engine;
pub mod message;
pub mod parser;
pub mod patterns;
pub mod scheduler;
pub mod search;
pub mod settings;
pub mod similarity;
pub mod stats;
pub mod text;
pub mod tracker;
pub mod utils;
pub mod verification;
pub mod wishlist;
