//! The error taxonomy of the layout session.

use vstd::prelude::*;

verus! {

/// Everything that can go wrong while driving the shaping engine.
///
/// The engine reports nothing richer than success or failure for most calls,
/// so the catch-all `Failed` covers malformed input, phase-order violations
/// and internal shaping errors alike.
#[derive(Clone, Copy, Debug, PartialEq, Eq, Structural)]
pub enum RaqmError {
    /// The engine could not allocate its session state; fatal to the session.
    CreateFailed,
    /// Post-layout glyph retrieval returned no data where data was expected.
    GetGlyphsFailed,
    /// Catch-all for any failure verdict from the engine, and for calls made
    /// out of phase order.
    Failed,
}

impl RaqmError {
    /// A human-readable description of the error.
    pub fn message(&self) -> String {
        match self {
            RaqmError::CreateFailed => "engine create returned no session".to_owned(),
            RaqmError::GetGlyphsFailed => "engine returned no glyph array".to_owned(),
            RaqmError::Failed => "engine failure".to_owned(),
        }
    }
}

} // verus!
