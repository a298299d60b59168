//! The terminal escape sequences the prompt is drawn with.

use vstd::prelude::*;

verus! {

/// Back to the terminal's own colours.
pub const RESET: &'static str = "\x1b[0m";

/// Faint text.
pub const DIM: &'static str = "\x1b[2m";

/// Magenta text.
pub const MAGENTA: &'static str = "\x1b[35m";

} // verus!
