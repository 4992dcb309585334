//! Paragraph direction for the Unicode Bidirectional Algorithm.

use vstd::prelude::*;

verus! {

/// The base direction used to resolve the Unicode Bidirectional Algorithm
/// for the paragraph.
///
/// `Default` lets the engine detect the direction from the first character
/// with a strong bidi type; `TopToBottom` selects the engine's (limited)
/// vertical layout.  Translation to the engine's raw representation happens
/// only at the boundary that performs the engine call.
#[derive(Clone, Copy, Debug, PartialEq, Eq, Structural)]
pub enum Direction {
    Default,
    RightToLeft,
    LeftToRight,
    TopToBottom,
}

impl Direction {
    /// Whether layout advances along the vertical axis.
    pub fn is_vertical(&self) -> (r: bool)
        ensures
            r == (*self == Direction::TopToBottom),
    {
        match self {
            Direction::TopToBottom => true,
            _ => false,
        }
    }
}

} // verus!
