//! Verification gate for a group-chat membership bot.
//!
//! The library holds the verified core: the pending-challenge store, the
//! challenge strategies and their validators, the whitelist, the command
//! engine, and the timeout escalation rules. All network and file I/O lives
//! outside, in the application layer, which only performs the actions this
//! library decides on.

pub mod chars;
pub mod captcha;
pub mod commands;
pub mod config;
pub mod engine;
pub mod pending;
pub mod state;
pub mod utils;
