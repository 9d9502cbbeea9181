//! The abstract bidirectional text interface a session is driven
//! through. A real console adapter and a scripted test double both
//! implement it outside this library; nothing can be promised of what
//! either returns, so the methods carry no contracts.

use vstd::prelude::*;

verus! {

/// Four text operations: blocking reads of a line or of a line's first
/// character, and writes with or without a trailing newline.
pub trait Communicate {
    /// Blocks until a full line of input is available and returns it.
    fn get_line(&self) -> String;

    /// Blocks for one line of input and returns its first character,
    /// or nothing if the line is empty.
    fn get_char(&self) -> Option<char>;

    /// Emits text with no trailing newline, for prompts.
    fn say(&self, message: &str);

    /// Emits text followed by a newline.
    fn say_line(&self, message: &str);
}

} // verus!
