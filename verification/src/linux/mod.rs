//! The Linux front-end: display-server choice, the sender loop, target
//! enumeration and the X11 injector's pure parts.

pub mod detect;
pub mod engine;
pub mod targets;
pub mod x11;
