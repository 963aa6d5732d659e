//! Events of the terminal application.

use vstd::prelude::*;

verus! {

/// Events that can occur in the terminal application.
#[derive(Debug)]
pub enum TerminalEvent {
    /// Data received from the PTY
    PtyOutput(Vec<u8>),
    /// The child process exited
    ChildExited(i32),
    /// Window resize
    Resize { cols: u16, rows: u16 },
    /// Bell triggered
    Bell,
    /// Title changed
    TitleChanged(String),
    /// Redraw needed
    Redraw,
}

} // verus!
