//! Core engine of a menu-bar task tracker: the task/note data model, its
//! JSON persistence with corruption recovery, the completion log and its
//! archival, hotkey-specification parsing, the shortcut-binding state
//! machine, and multi-monitor window placement.
//!
//! Everything here is pure computation over plain values; the surrounding
//! application performs the file, clock and window-system calls and hands
//! the results to these functions.

pub mod appstate;
pub mod chars;
pub mod clock;
pub mod donelog;
pub mod format;
pub mod hotkey;
pub mod json;
pub mod model;
pub mod paths;
pub mod placement;
pub mod reader;
pub mod writer;

use vstd::prelude::*;

verus! {

/// The built-in default hotkey specification.
pub fn default_hotkey() -> (r: String)
    ensures
        r@ == "Cmd+Ctrl+Alt+Shift+="@,
{
    String::from_str("Cmd+Ctrl+Alt+Shift+=")
}

} // verus!
