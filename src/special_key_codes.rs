//! Characters that the input shell sends for keys without a printable glyph.
use vstd::prelude::*;

verus! {

pub const KEY_ENTER: char = '\n';

pub const KEY_BACKSPACE: char = '\u{8}';

/// Left arrow.
pub const KEY_LEFT: char = '[';

/// Right arrow.
pub const KEY_RIGHT: char = ']';

/// Up arrow: jump, or stand up from a crouch.
pub const KEY_JUMP: char = '/';

/// Down arrow: crouch.
pub const KEY_CROUCH: char = '.';

/// Swing the sword.
pub const KEY_ATTACK: char = ',';

} // verus!
