//! Verified core of an automatic key presser: key tables, the combo
//! press/release protocol, the sender loop decisions, target selection and
//! the panel bookkeeping of the desktop front-ends.

pub mod combo;
pub mod detect;
pub mod find;
pub mod keyboard;
pub mod linux;
pub mod macos;
pub mod sort;
pub mod text;
pub mod uinput;
pub mod windows;
pub mod worker;
