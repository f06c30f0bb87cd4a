//! Which display server the session runs, decided from the session's
//! environment (read by the caller): `WAYLAND_DISPLAY` wins unless
//! `XDG_SESSION_TYPE` says `x11`.

use vstd::prelude::*;

verus! {

/// The display server that keys are injected through.
#[derive(Clone, Copy, Debug, PartialEq, Eq)]
pub enum DisplayServer {
    X11,
    Wayland,
}

impl DisplayServer {
    pub open spec fn spec_name(self) -> Seq<char> {
        match self {
            DisplayServer::X11 => "X11"@,
            DisplayServer::Wayland => "Wayland"@,
        }
    }

    /// Human-readable name.
    pub fn name(&self) -> (s: &'static str)
        ensures
            s@ == self.spec_name(),
    {
        match self {
            DisplayServer::X11 => "X11",
            DisplayServer::Wayland => "Wayland",
        }
    }
}

/// The display server for a session in which `WAYLAND_DISPLAY` is set or
/// not, `XDG_SESSION_TYPE` holds `session_type` (`None` when unset or not
/// Unicode) and `DISPLAY` is set or not.
pub open spec fn spec_detect(
    wayland_display: bool,
    session_type: Option<Seq<char>>,
    display: bool,
) -> DisplayServer {
    if wayland_display {
        if session_type == Some("x11"@) {
            DisplayServer::X11
        } else {
            DisplayServer::Wayland
        }
    } else if session_type == Some("wayland"@) {
        DisplayServer::Wayland
    } else if display {
        DisplayServer::X11
    } else {
        DisplayServer::Wayland
    }
}

pub open spec fn opt_view(s: Option<&str>) -> Option<Seq<char>> {
    match s {
        Some(t) => Some(t@),
        None => None,
    }
}

/// Decides the display server from the session's environment.
pub fn detect(wayland_display: bool, session_type: Option<&str>, display: bool) -> (ds:
    DisplayServer)
    ensures
        ds == spec_detect(wayland_display, opt_view(session_type), display),
{
    if wayland_display {
        if let Some(t) = session_type {
            if crate::text::str_eq(t, "x11") {
                return DisplayServer::X11;
            }
        }
        return DisplayServer::Wayland;
    }
    if let Some(t) = session_type {
        if crate::text::str_eq(t, "wayland") {
            return DisplayServer::Wayland;
        }
    }
    if display {
        return DisplayServer::X11;
    }
    DisplayServer::Wayland
}

} // verus!
