//! The Windows front-end: the virtual-key table, the choice of injection
//! method, target listing, the sender loop and the panel bookkeeping.

pub mod keyboard;
pub mod sender;
pub mod injector;
pub mod engine;
pub mod targets;
pub mod app;
