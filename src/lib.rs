//! Meditation tracking statistics: current streaks, bucketed timeframe
//! aggregates, vanity-role thresholds and the small data structures the bot
//! shell uses to present them.

pub mod charts;
pub mod config;
pub mod days;
pub mod help;
pub mod logging;
pub mod pagination;
pub mod records;
pub mod retry;
pub mod stats;
pub mod streak;
pub mod timeframe;
