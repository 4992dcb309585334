//! Session-based Unicode bidirectional text layout and shaping.
//!
//! A [`session::Raqm`] drives an external shaping engine through a strict
//! `create -> set text -> configure -> layout -> query` discipline.  The
//! session records the text buffer and the per-range attribute table, enforces
//! the operation order that the engine itself does not enforce, and, once the
//! engine's glyph output has been handed over, answers the two coordinate
//! queries (character index to cursor position and back) from that output.
//!
//! The engine itself (bidi resolution, shaping, glyph generation) is an
//! unverified collaborator: its verdicts and its glyph array enter the
//! library as plain values, and every decision taken on them is verified.

pub mod direction;
pub mod error;
pub mod glyph;
pub mod mapper;
pub mod position;
pub mod ranges;
pub mod session;
pub mod text;

pub use direction::Direction;
pub use error::RaqmError;
pub use glyph::{FontRef, Glyph};
pub use position::Position;
pub use ranges::{FontRange, LanguageRange};
pub use session::{Phase, Raqm};
pub use text::TextBuffer;
