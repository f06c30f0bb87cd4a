//! The three ways keys reach a Windows target, as the messages, console
//! input records and synthesized inputs they write: PostMessage to a GUI
//! window, WriteConsoleInput to a console process, SendInput after
//! bringing a window to the foreground.

pub mod console;
pub mod postmessage;
pub mod sendinput;

use vstd::prelude::*;

verus! {

/// The injection method that delivered a key.
#[derive(Clone, Copy, Debug, PartialEq, Eq)]
pub enum Method {
    PostMessage,
    WriteConsoleInput,
    SendInput,
    /// OS-level SendInput without a target window (screen automation).
    ScreenInput,
}

impl Method {
    pub open spec fn spec_name(self) -> Seq<char> {
        match self {
            Method::PostMessage => "PostMessage"@,
            Method::WriteConsoleInput => "WriteConsoleInput"@,
            Method::SendInput => "SendInput"@,
            Method::ScreenInput => "ScreenInput"@,
        }
    }

    /// The method's name, as shown in status lines.
    pub fn name(&self) -> (s: &'static str)
        ensures
            s@ == self.spec_name(),
    {
        match self {
            Method::PostMessage => "PostMessage",
            Method::WriteConsoleInput => "WriteConsoleInput",
            Method::SendInput => "SendInput",
            Method::ScreenInput => "ScreenInput",
        }
    }
}

} // verus!
