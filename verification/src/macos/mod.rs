//! The macOS front-end: the CGEvent key table, window targets, the sender
//! loop and the panel bookkeeping.

pub mod keyboard;
pub mod targets;
pub mod engine;
pub mod app;
