//! A cursor position produced by a coordinate query.

use vstd::prelude::*;

verus! {

/// A cursor position: a character index together with x and y in layout
/// units.
///
/// Produced per query, never persisted.  The `index` field may differ from
/// the index a caller handed in: the query snaps to the nearest valid
/// cluster boundary, and callers must use the returned index.
#[derive(Clone, Copy, Debug, PartialEq, Eq, Structural)]
pub struct Position {
    /// character index
    pub index: usize,
    /// output x position
    pub x: i32,
    /// output y position
    pub y: i32,
}

} // verus!
