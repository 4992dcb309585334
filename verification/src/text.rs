//! The text buffer: the normalized input text in one encoding, whose native
//! index unit (bytes for UTF-8, scalar values for UTF-32) is the unit of
//! every range operation of the session.

use vstd::prelude::*;
use vstd::string::{StrSliceExecFns, StringSliceAdditionalSpecFns};

verus! {

/// The Unicode replacement character, standing in for every invalid scalar
/// value in UTF-32 input.
pub const REPLACEMENT: u32 = 0xFFFD;

/// Whether `u` is a Unicode scalar value: a code point that is not a
/// surrogate.
pub open spec fn is_scalar_value(u: u32) -> bool {
    u < 0xD800 || (0xE000 <= u && u <= 0x10FFFF)
}

/// What normalization makes of one UTF-32 unit: kept if it is a scalar
/// value, replaced with U+FFFD otherwise.
pub open spec fn normalized_scalar(u: u32) -> u32 {
    if is_scalar_value(u) {
        u
    } else {
        REPLACEMENT
    }
}

/// The mathematical model of a text buffer: the encoding tag and the
/// content, one sequence element per native index unit (a byte widened to
/// `u32` for UTF-8, a scalar value for UTF-32).
pub ghost struct TextView {
    pub utf32: bool,
    pub units: Seq<u32>,
}

/// The normalized input text, owned by the session for its lifetime.
///
/// Indices and lengths used by all range operations count the native units
/// of the chosen encoding.
pub enum TextBuffer {
    Utf8 { bytes: Vec<u8> },
    Utf32 { scalars: Vec<u32> },
}

impl View for TextBuffer {
    type V = TextView;

    open spec fn view(&self) -> TextView {
        match self {
            TextBuffer::Utf8 { bytes } => TextView {
                utf32: false,
                units: bytes@.map(|_i: int, b: u8| b as u32),
            },
            TextBuffer::Utf32 { scalars } => TextView { utf32: true, units: scalars@ },
        }
    }
}

impl TextView {
    /// The length of the text in its native index unit.
    pub open spec fn len(self) -> nat {
        self.units.len()
    }
}

impl TextBuffer {
    /// Builds the buffer for UTF-8 input.  Rust guarantees that a `str` is
    /// valid UTF-8, so the content is stored byte for byte.
    pub fn from_utf8(text: &str) -> (r: TextBuffer)
        ensures
            !r@.utf32,
            r@.units == text.spec_bytes().map(|_i: int, b: u8| b as u32),
    {
        TextBuffer::Utf8 { bytes: text.as_bytes_vec() }
    }

    /// Builds the buffer for UTF-32 input, replacing every invalid scalar
    /// value with U+FFFD rather than rejecting the text.
    pub fn from_utf32(text: &[u32]) -> (r: TextBuffer)
        ensures
            r@.utf32,
            r@.units.len() == text@.len(),
            forall|i: int|
                0 <= i < text@.len() ==> r@.units[i] == normalized_scalar(text@[i]),
    {
        let mut scalars: Vec<u32> = Vec::new();
        let mut k: usize = 0;
        while k < text.len()
            invariant
                k <= text@.len(),
                scalars@.len() == k,
                forall|i: int| 0 <= i < k ==> scalars@[i] == normalized_scalar(text@[i]),
            decreases text@.len() - k,
        {
            let u = text[k];
            if u < 0xD800 || (0xE000 <= u && u <= 0x10FFFF) {
                scalars.push(u);
            } else {
                scalars.push(REPLACEMENT);
            }
            k = k + 1;
        }
        TextBuffer::Utf32 { scalars }
    }

    /// The length of the text in its native index unit.
    pub fn len(&self) -> (n: usize)
        ensures
            n == self@.len(),
    {
        match self {
            TextBuffer::Utf8 { bytes } => bytes.len(),
            TextBuffer::Utf32 { scalars } => scalars.len(),
        }
    }
}

} // verus!
