//! Display-server choice of the Linux front-end: an explicit
//! `XDG_SESSION_TYPE` wins, then `DISPLAY` (X11, also through XWayland),
//! then `WAYLAND_DISPLAY`; with none of them, X11.

use vstd::prelude::*;

pub use crate::detect::DisplayServer;
use crate::detect::opt_view;

verus! {

/// The display server for a session with these environment values.
pub open spec fn spec_detect(
    wayland_display: bool,
    session_type: Option<Seq<char>>,
    display: bool,
) -> DisplayServer {
    if session_type == Some("x11"@) {
        DisplayServer::X11
    } else if session_type == Some("wayland"@) {
        DisplayServer::Wayland
    } else if display {
        DisplayServer::X11
    } else if wayland_display {
        DisplayServer::Wayland
    } else {
        DisplayServer::X11
    }
}

/// Decides the display server from the session's environment.
pub fn detect(wayland_display: bool, session_type: Option<&str>, display: bool) -> (ds:
    DisplayServer)
    ensures
        ds == spec_detect(wayland_display, opt_view(session_type), display),
{
    if let Some(t) = session_type {
        if crate::text::str_eq(t, "x11") {
            return DisplayServer::X11;
        }
        if crate::text::str_eq(t, "wayland") {
            return DisplayServer::Wayland;
        }
    }
    if display {
        return DisplayServer::X11;
    }
    if wayland_display {
        return DisplayServer::Wayland;
    }
    DisplayServer::X11
}

} // verus!
