//! The glyph records that a successful layout run produces.

use vstd::prelude::*;

verus! {

/// A non-owning reference to a font face held by the caller.
///
/// The engine works on foreign font handles; the session only routes them,
/// so a face is carried as a plain identifier that the caller maps back to
/// the real handle at the engine boundary.
#[derive(Clone, Copy, Debug, PartialEq, Eq, Structural)]
pub struct FontRef {
    pub id: u64,
}

/// One output glyph: an index into the font file, its advances and offsets
/// in layout units, the index of the originating character in the text
/// buffer, and the font face it was shaped with.
///
/// Immutable once produced.  A glyph sequence is ordered in visual shaping
/// order, which bidi reordering may make different from logical text order.
#[derive(Clone, Copy, Debug, PartialEq, Eq, Structural)]
pub struct Glyph {
    /// the index of the glyph in the font file.
    pub index: u32,
    /// the glyph advance width in horizontal text.
    pub x_advance: i32,
    /// the glyph advance width in vertical text.
    pub y_advance: i32,
    /// the horizontal movement of the glyph from the current point.
    pub x_offset: i32,
    /// the vertical movement of the glyph from the current point.
    pub y_offset: i32,
    /// the index of the original character in the input text.
    pub cluster: u32,
    /// the font face of the glyph.
    pub face: FontRef,
}

} // verus!
