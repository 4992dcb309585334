//! The layout session: the state machine that drives the shaping engine
//! through `create -> set text -> configure -> layout -> query` and refuses
//! every call made out of that order.
//!
//! The engine itself lives outside the library: the caller owns its raw
//! handle, performs the engine calls, and hands their outcomes in as plain
//! values — a creation verdict to [`Raqm::new`], a layout verdict to
//! [`Raqm::layout`], and the engine's glyph array to [`Raqm::glyphs`].
//! Everything decided on those values is verified: which calls are allowed
//! in which phase, how the text buffer and the attribute range table are
//! recorded, which error each refusal carries, and how the coordinate
//! queries read the glyph sequence.
//!
//! During `layout` the caller replays the recorded configuration against
//! the engine in call order — text first, then direction, load flags,
//! features, and the language and font ranges each in the order they were
//! added, so that a later range wins for an overlapping span.

use vstd::prelude::*;
use vstd::string::StringSliceAdditionalSpecFns;

use crate::direction::Direction;
use crate::error::RaqmError;
use crate::glyph::{FontRef, Glyph};
use crate::mapper::{
    glyphs_index_to_position, glyphs_position_to_index, glyphs_well_formed, glyphs_wf,
    has_cluster_at_most, index_to_position_post, position_to_index_post, snaps_to,
};
use crate::position::Position;
use crate::ranges::{
    font_at, font_ranges_wf, language_at, language_ranges_wf, FontRange, FontRangeView,
    LanguageRange, LanguageRangeView,
};
use crate::text::{normalized_scalar, TextBuffer, TextView};

verus! {

/// The lifecycle phase of a session.  It only ever advances: a session is
/// created, receives its text exactly once, and is laid out at most once.
/// Attribute configuration happens between `TextSet` and `LaidOut`.
#[derive(Clone, Copy, Debug, PartialEq, Eq, Structural)]
pub enum Phase {
    Created,
    TextSet,
    LaidOut,
}

/// The mathematical model of a session: its phase, the text buffer, the
/// configuration recorded for replay, whether a layout run was already
/// tried, and the glyph sequence once it has been handed over.
pub ghost struct SessionView {
    pub phase: Phase,
    pub text: Option<TextView>,
    pub direction: Direction,
    pub languages: Seq<LanguageRangeView>,
    pub fonts: Seq<FontRangeView>,
    pub features: Seq<Seq<char>>,
    pub load_flags: Option<i32>,
    pub layout_tried: bool,
    pub glyphs: Option<Seq<Glyph>>,
}

impl SessionView {
    /// The length of the session's text in its native index unit.
    pub open spec fn text_len(self) -> nat {
        self.text->Some_0.len()
    }

    /// Whether the session resolves to a right-to-left paragraph.
    pub open spec fn rtl(self) -> bool {
        self.direction == Direction::RightToLeft
    }

    /// Whether the session lays text out along the vertical axis.
    pub open spec fn vertical(self) -> bool {
        self.direction == Direction::TopToBottom
    }

    /// The well-formedness every session keeps: the phase determines what
    /// is present, every recorded range lies within the text, and a glyph
    /// sequence is only ever cached after layout and fits the text.
    pub open spec fn wf(self) -> bool {
        &&& (self.phase == Phase::Created ==> {
            &&& self.text is None
            &&& self.direction == Direction::Default
            &&& self.languages.len() == 0
            &&& self.fonts.len() == 0
            &&& self.features.len() == 0
            &&& self.load_flags is None
            &&& !self.layout_tried
        })
        &&& (self.phase != Phase::Created ==> self.text is Some)
        &&& (self.phase == Phase::LaidOut ==> self.layout_tried)
        &&& language_ranges_wf(self.languages, self.text_len())
        &&& font_ranges_wf(self.fonts, self.text_len())
        &&& (self.glyphs is Some ==> self.phase == Phase::LaidOut && glyphs_wf(
            self.glyphs->Some_0,
            self.text_len(),
        ))
    }
}

/// A layout session.
///
/// The session owns the text buffer and the attribute range table, enforces
/// the phase order that the raw engine does not, and — once the engine's
/// glyph array has been handed over — owns the glyph sequence and answers
/// the coordinate queries from it.
pub struct Raqm {
    phase: Phase,
    text: Option<TextBuffer>,
    direction: Direction,
    languages: Vec<LanguageRange>,
    fonts: Vec<FontRange>,
    features: Vec<String>,
    load_flags: Option<i32>,
    layout_tried: bool,
    glyphs: Option<Vec<Glyph>>,
}

impl View for Raqm {
    type V = SessionView;

    closed spec fn view(&self) -> SessionView {
        SessionView {
            phase: self.phase,
            text: match self.text {
                Some(t) => Some(t@),
                None => None,
            },
            direction: self.direction,
            languages: self.languages@.map(|_i: int, r: LanguageRange| r@),
            fonts: self.fonts@.map(|_i: int, r: FontRange| r@),
            features: self.features@.map(|_i: int, s: String| s@),
            load_flags: self.load_flags,
            layout_tried: self.layout_tried,
            glyphs: match self.glyphs {
                Some(g) => Some(g@),
                None => None,
            },
        }
    }
}

impl Raqm {
    /// Creates a session around a fresh engine handle.  `engine_created`
    /// reports whether the engine allocated its internal state; when it
    /// did not, the session cannot exist and `CreateFailed` is returned.
    pub fn new(engine_created: bool) -> (r: Result<Raqm, RaqmError>)
        ensures
            engine_created ==> r is Ok && (r->Ok_0)@ == (SessionView {
                phase: Phase::Created,
                text: None,
                direction: Direction::Default,
                languages: Seq::empty(),
                fonts: Seq::empty(),
                features: Seq::empty(),
                load_flags: None,
                layout_tried: false,
                glyphs: None,
            }),
            !engine_created ==> r == Err::<Raqm, RaqmError>(RaqmError::CreateFailed),
            r is Ok ==> (r->Ok_0)@.wf(),
    {
        if engine_created {
            let s = Raqm {
                phase: Phase::Created,
                text: None,
                direction: Direction::Default,
                languages: Vec::new(),
                fonts: Vec::new(),
                features: Vec::new(),
                load_flags: None,
                layout_tried: false,
                glyphs: None,
            };
            proof {
                assert(s@.languages =~= Seq::<LanguageRangeView>::empty());
                assert(s@.fonts =~= Seq::<FontRangeView>::empty());
                assert(s@.features =~= Seq::<Seq<char>>::empty());
            }
            Ok(s)
        } else {
            Err(RaqmError::CreateFailed)
        }
    }

    /// The session's current phase.
    pub fn phase(&self) -> (r: Phase)
        ensures
            r == self@.phase,
    {
        self.phase
    }

    /// The length of the session's text in its native index unit — bytes
    /// for UTF-8 input, scalar values for UTF-32 — or `None` before any
    /// text is set.
    pub fn text_len(&self) -> (r: Option<usize>)
        ensures
            self@.text is Some ==> r == Some(self@.text_len() as usize),
            self@.text is None ==> r is None,
    {
        match &self.text {
            Some(t) => Some(t.len()),
            None => None,
        }
    }

    /// The text unit at `index` — the byte, widened, for UTF-8 input, the
    /// normalized scalar value for UTF-32 — or `None` before any text is
    /// set or past its end.
    pub fn text_unit(&self, index: usize) -> (r: Option<u32>)
        ensures
            self@.text is Some && index < self@.text_len() ==> r == Some(
                self@.text->Some_0.units[index as int],
            ),
            !(self@.text is Some && index < self@.text_len()) ==> r is None,
    {
        match &self.text {
            Some(TextBuffer::Utf8 { bytes }) => {
                if index < bytes.len() {
                    Some(bytes[index] as u32)
                } else {
                    None
                }
            },
            Some(TextBuffer::Utf32 { scalars }) => {
                if index < scalars.len() {
                    Some(scalars[index])
                } else {
                    None
                }
            },
            None => None,
        }
    }

    /// Whether a layout call would be accepted now: the session is in the
    /// configuration phase and no layout run was tried yet.  The engine's
    /// pipeline should only ever be run after this says so.
    pub fn can_layout(&self) -> (r: bool)
        ensures
            r == (self@.phase == Phase::TextSet && !self@.layout_tried),
    {
        match self.phase {
            Phase::TextSet => !self.layout_tried,
            _ => false,
        }
    }

    /// Sets the session's text from UTF-8 input, allowed exactly once, in
    /// the `Created` phase; every later call fails with `Failed` and
    /// changes nothing.  Range indices from here on count bytes.
    pub fn set_text(&mut self, text: &str) -> (r: Result<(), RaqmError>)
        requires
            old(self)@.wf(),
        ensures
            final(self)@.wf(),
            old(self)@.phase == Phase::Created ==> r is Ok && final(self)@ == (SessionView {
                phase: Phase::TextSet,
                text: Some(
                    TextView {
                        utf32: false,
                        units: text.spec_bytes().map(|_i: int, b: u8| b as u32),
                    },
                ),
                ..old(self)@
            }),
            old(self)@.phase != Phase::Created ==> r == Err::<(), RaqmError>(RaqmError::Failed)
                && final(self)@ == old(self)@,
    {
        match self.phase {
            Phase::Created => {
                self.text = Some(TextBuffer::from_utf8(text));
                self.phase = Phase::TextSet;
                Ok(())
            },
            _ => Err(RaqmError::Failed),
        }
    }

    /// Sets the session's text from UTF-32 input, allowed exactly once, in
    /// the `Created` phase.  Invalid scalar values are replaced with
    /// U+FFFD rather than rejected.  Range indices from here on count
    /// scalar values.
    pub fn set_text_utf32(&mut self, text: &[u32]) -> (r: Result<(), RaqmError>)
        requires
            old(self)@.wf(),
        ensures
            final(self)@.wf(),
            old(self)@.phase == Phase::Created ==> r is Ok && final(self)@ == (SessionView {
                phase: Phase::TextSet,
                text: Some(
                    TextView {
                        utf32: true,
                        units: text@.map(|_i: int, u: u32| normalized_scalar(u)),
                    },
                ),
                ..old(self)@
            }),
            old(self)@.phase != Phase::Created ==> r == Err::<(), RaqmError>(RaqmError::Failed)
                && final(self)@ == old(self)@,
    {
        match self.phase {
            Phase::Created => {
                let buffer = TextBuffer::from_utf32(text);
                proof {
                    assert(buffer@.units =~= text@.map(|_i: int, u: u32| normalized_scalar(u)));
                }
                self.text = Some(buffer);
                self.phase = Phase::TextSet;
                Ok(())
            },
            _ => Err(RaqmError::Failed),
        }
    }

    /// Sets the paragraph direction for the Unicode Bidirectional
    /// Algorithm.  Valid after the text is set and before layout; any
    /// other phase fails with `Failed` and changes nothing.
    pub fn set_par_direction(&mut self, direction: Direction) -> (r: Result<(), RaqmError>)
        requires
            old(self)@.wf(),
        ensures
            final(self)@.wf(),
            old(self)@.phase == Phase::TextSet ==> r is Ok && final(self)@ == (SessionView {
                direction,
                ..old(self)@
            }),
            old(self)@.phase != Phase::TextSet ==> r == Err::<(), RaqmError>(RaqmError::Failed)
                && final(self)@ == old(self)@,
    {
        match self.phase {
            Phase::TextSet => {
                self.direction = direction;
                Ok(())
            },
            _ => Err(RaqmError::Failed),
        }
    }

    /// Records a BCP47 language tag for the half-open range
    /// `[start, end)` of the text, in its native index units.  May be
    /// called repeatedly; for an overlapping span the latest call wins.
    /// Fails with `Failed`, changing nothing, out of the configuration
    /// phase or when the range does not satisfy
    /// `start <= end <= text length`.
    pub fn set_language(&mut self, lang_code: &str, start: usize, end: usize) -> (r: Result<
        (),
        RaqmError,
    >)
        requires
            old(self)@.wf(),
        ensures
            final(self)@.wf(),
            old(self)@.phase == Phase::TextSet && start <= end && end <= old(self)@.text_len()
                ==> r is Ok && final(self)@ == (SessionView {
                languages: old(self)@.languages.push(
                    LanguageRangeView { start: start as int, end: end as int, tag: lang_code@ },
                ),
                ..old(self)@
            }),
            !(old(self)@.phase == Phase::TextSet && start <= end && end <= old(self)@.text_len())
                ==> r == Err::<(), RaqmError>(RaqmError::Failed) && final(self)@ == old(self)@,
    {
        match (&self.phase, &self.text) {
            (Phase::TextSet, Some(text)) => {
                if start <= end && end <= text.len() {
                    let range = LanguageRange { start, end, tag: lang_code.to_owned() };
                    proof {
                        assert(range@ == (LanguageRangeView {
                            start: start as int,
                            end: end as int,
                            tag: lang_code@,
                        }));
                    }
                    self.languages.push(range);
                    proof {
                        assert(self@.languages =~= old(self)@.languages.push(
                            LanguageRangeView {
                                start: start as int,
                                end: end as int,
                                tag: lang_code@,
                            },
                        ));
                    }
                    Ok(())
                } else {
                    Err(RaqmError::Failed)
                }
            },
            _ => Err(RaqmError::Failed),
        }
    }

    /// Records a font face for the whole text: shorthand for a font range
    /// covering `[0, text length)`.
    pub fn set_freetype_face(&mut self, face: FontRef) -> (r: Result<(), RaqmError>)
        requires
            old(self)@.wf(),
        ensures
            final(self)@.wf(),
            old(self)@.phase == Phase::TextSet ==> r is Ok && final(self)@ == (SessionView {
                fonts: old(self)@.fonts.push(
                    FontRangeView { start: 0, end: old(self)@.text_len() as int, face },
                ),
                ..old(self)@
            }),
            old(self)@.phase != Phase::TextSet ==> r == Err::<(), RaqmError>(RaqmError::Failed)
                && final(self)@ == old(self)@,
    {
        match (&self.phase, &self.text) {
            (Phase::TextSet, Some(text)) => {
                let end = text.len();
                self.fonts.push(FontRange { start: 0, end, face });
                proof {
                    assert(self@.fonts =~= old(self)@.fonts.push(
                        FontRangeView { start: 0, end: old(self)@.text_len() as int, face },
                    ));
                }
                Ok(())
            },
            _ => Err(RaqmError::Failed),
        }
    }

    /// Records a font face for the half-open range `[start, end)` of the
    /// text, in its native index units.  May be called repeatedly; for an
    /// overlapping span the latest call wins.  It is the caller's
    /// responsibility that font ranges collectively cover the whole text:
    /// uncovered spans are passed through to the engine unchanged, and the
    /// engine's layout verdict reports what it made of them.
    pub fn set_freetype_face_range(&mut self, face: FontRef, start: usize, end: usize) -> (r:
        Result<(), RaqmError>)
        requires
            old(self)@.wf(),
        ensures
            final(self)@.wf(),
            old(self)@.phase == Phase::TextSet && start <= end && end <= old(self)@.text_len()
                ==> r is Ok && final(self)@ == (SessionView {
                fonts: old(self)@.fonts.push(
                    FontRangeView { start: start as int, end: end as int, face },
                ),
                ..old(self)@
            }),
            !(old(self)@.phase == Phase::TextSet && start <= end && end <= old(self)@.text_len())
                ==> r == Err::<(), RaqmError>(RaqmError::Failed) && final(self)@ == old(self)@,
    {
        match (&self.phase, &self.text) {
            (Phase::TextSet, Some(text)) => {
                if start <= end && end <= text.len() {
                    self.fonts.push(FontRange { start, end, face });
                    proof {
                        assert(self@.fonts =~= old(self)@.fonts.push(
                            FontRangeView { start: start as int, end: end as int, face },
                        ));
                    }
                    Ok(())
                } else {
                    Err(RaqmError::Failed)
                }
            },
            _ => Err(RaqmError::Failed),
        }
    }

    /// Records the load flags the engine passes to the font backend when
    /// loading glyphs; they should match the flags the caller renders
    /// with.  Valid only in the configuration phase.
    pub fn set_freetype_load_flags(&mut self, flags: i32) -> (r: Result<(), RaqmError>)
        requires
            old(self)@.wf(),
        ensures
            final(self)@.wf(),
            old(self)@.phase == Phase::TextSet ==> r is Ok && final(self)@ == (SessionView {
                load_flags: Some(flags),
                ..old(self)@
            }),
            old(self)@.phase != Phase::TextSet ==> r == Err::<(), RaqmError>(RaqmError::Failed)
                && final(self)@ == old(self)@,
    {
        match self.phase {
            Phase::TextSet => {
                self.load_flags = Some(flags);
                Ok(())
            },
            _ => Err(RaqmError::Failed),
        }
    }

    /// Appends a font feature, in the syntax of the shaping backend, to
    /// the session's global feature list; later features can override
    /// earlier ones.  `len` declares how many bytes of `feature` form the
    /// feature; a length other than the feature's own is rejected as
    /// malformed with `Failed`.  Whether the backend accepts the feature's
    /// syntax surfaces in the layout verdict.
    pub fn add_font_feature(&mut self, feature: &str, len: usize) -> (r: Result<(), RaqmError>)
        requires
            old(self)@.wf(),
        ensures
            final(self)@.wf(),
            old(self)@.phase == Phase::TextSet && len == feature.spec_bytes().len() as usize
                ==> r is Ok && final(self)@ == (SessionView {
                features: old(self)@.features.push(feature@),
                ..old(self)@
            }),
            !(old(self)@.phase == Phase::TextSet && len == feature.spec_bytes().len() as usize)
                ==> r == Err::<(), RaqmError>(RaqmError::Failed) && final(self)@ == old(self)@,
    {
        match self.phase {
            Phase::TextSet => {
                if len == feature.len() {
                    self.features.push(feature.to_owned());
                    proof {
                        assert(self@.features =~= old(self)@.features.push(feature@));
                    }
                    Ok(())
                } else {
                    Err(RaqmError::Failed)
                }
            },
            _ => Err(RaqmError::Failed),
        }
    }

    /// Runs the layout transition.  The caller replays the recorded
    /// configuration against the engine, runs the engine's bidi and
    /// shaping pipeline, and hands its verdict in as `engine_ok`.
    ///
    /// Layout is single-shot: it is accepted only in the configuration
    /// phase and only once.  On a success verdict the session moves to
    /// `LaidOut`; on a failure verdict it returns `Failed` and refuses
    /// every further layout call, so the engine is never asked to lay the
    /// same session out twice.
    pub fn layout(&mut self, engine_ok: bool) -> (r: Result<(), RaqmError>)
        requires
            old(self)@.wf(),
        ensures
            final(self)@.wf(),
            old(self)@.phase == Phase::TextSet && !old(self)@.layout_tried && engine_ok ==> r
                is Ok && final(self)@ == (SessionView {
                phase: Phase::LaidOut,
                layout_tried: true,
                ..old(self)@
            }),
            old(self)@.phase == Phase::TextSet && !old(self)@.layout_tried && !engine_ok ==> r
                == Err::<(), RaqmError>(RaqmError::Failed) && final(self)@ == (SessionView {
                layout_tried: true,
                ..old(self)@
            }),
            !(old(self)@.phase == Phase::TextSet && !old(self)@.layout_tried) ==> r == Err::<
                (),
                RaqmError,
            >(RaqmError::Failed) && final(self)@ == old(self)@,
    {
        match self.phase {
            Phase::TextSet => {
                if self.layout_tried {
                    Err(RaqmError::Failed)
                } else {
                    self.layout_tried = true;
                    if engine_ok {
                        self.phase = Phase::LaidOut;
                        Ok(())
                    } else {
                        Err(RaqmError::Failed)
                    }
                }
            },
            _ => Err(RaqmError::Failed),
        }
    }

    /// Hands over and returns the glyph sequence of a laid-out session.
    ///
    /// `fetched` is what the engine's glyph retrieval produced: `None`
    /// where it reported no data — surfaced as `GetGlyphsFailed` — and
    /// the copied glyph array otherwise.  An array that does not fit the
    /// laid-out text (a cluster outside it, a negative advance, an
    /// overflowing extent, a torn-apart cluster) is refused as `Failed`.
    /// The first accepted array is cached; later calls return the cache
    /// and ignore `fetched`.  Before layout the call fails with `Failed`
    /// and no data, stale or otherwise, is ever returned.
    pub fn glyphs(&mut self, fetched: Option<Vec<Glyph>>) -> (r: Result<Vec<Glyph>, RaqmError>)
        requires
            old(self)@.wf(),
        ensures
            final(self)@.wf(),
            old(self)@.phase != Phase::LaidOut ==> r == Err::<Vec<Glyph>, RaqmError>(
                RaqmError::Failed,
            ) && final(self)@ == old(self)@,
            old(self)@.phase == Phase::LaidOut && old(self)@.glyphs is Some ==> r is Ok && (r
                ->Ok_0)@ == old(self)@.glyphs->Some_0 && final(self)@ == old(self)@,
            old(self)@.phase == Phase::LaidOut && old(self)@.glyphs is None ==> match fetched {
                None => r == Err::<Vec<Glyph>, RaqmError>(RaqmError::GetGlyphsFailed)
                    && final(self)@ == old(self)@,
                Some(v) => {
                    if glyphs_wf(v@, old(self)@.text_len()) {
                        r is Ok && (r->Ok_0)@ == v@ && final(self)@ == (SessionView {
                            glyphs: Some(v@),
                            ..old(self)@
                        })
                    } else {
                        r == Err::<Vec<Glyph>, RaqmError>(RaqmError::Failed) && final(self)@
                            == old(self)@
                    }
                },
            },
    {
        match self.phase {
            Phase::LaidOut => {
                match &self.glyphs {
                    Some(cache) => Ok(copy_glyphs(cache)),
                    None => {
                        match fetched {
                            None => Err(RaqmError::GetGlyphsFailed),
                            Some(v) => {
                                let text_len = match &self.text {
                                    Some(t) => t.len(),
                                    None => 0,
                                };
                                if glyphs_well_formed(&v, text_len) {
                                    let out = copy_glyphs(&v);
                                    self.glyphs = Some(v);
                                    Ok(out)
                                } else {
                                    Err(RaqmError::Failed)
                                }
                            },
                        }
                    },
                }
            },
            _ => Err(RaqmError::Failed),
        }
    }

    /// The cursor position after the character at `index`: at the visual
    /// left edge of its cluster for a right-to-left character, at the
    /// right edge otherwise, with the returned index snapped to the
    /// nearest cluster boundary.  Valid only once the session is laid out
    /// and its glyph sequence has been handed over; any earlier call
    /// fails with `Failed`.  The session itself is never changed.
    pub fn index_to_position(&mut self, index: usize) -> (r: Result<Position, RaqmError>)
        requires
            old(self)@.wf(),
        ensures
            final(self)@ == old(self)@,
            !(old(self)@.phase == Phase::LaidOut && old(self)@.glyphs is Some) ==> r == Err::<
                Position,
                RaqmError,
            >(RaqmError::Failed),
            old(self)@.phase == Phase::LaidOut && old(self)@.glyphs is Some ==> r is Ok
                && index_to_position_post(
                old(self)@.glyphs->Some_0,
                old(self)@.rtl(),
                index as int,
                r->Ok_0,
            ),
    {
        match (&self.phase, &self.glyphs) {
            (Phase::LaidOut, Some(glyphs)) => {
                let rtl = match self.direction {
                    Direction::RightToLeft => true,
                    _ => false,
                };
                Ok(glyphs_index_to_position(glyphs, rtl, index))
            },
            _ => Err(RaqmError::Failed),
        }
    }

    /// The index of the character whose glyph span contains `(x, y)`
    /// along the dominant axis, clamped to the visually first or last
    /// character when the point lies outside the laid-out extent.  Valid
    /// only once the session is laid out and its glyph sequence has been
    /// handed over; any earlier call fails with `Failed`.  The session
    /// itself is never changed.
    pub fn position_to_index(&mut self, x: i32, y: i32) -> (r: Result<usize, RaqmError>)
        requires
            old(self)@.wf(),
        ensures
            final(self)@ == old(self)@,
            !(old(self)@.phase == Phase::LaidOut && old(self)@.glyphs is Some) ==> r == Err::<
                usize,
                RaqmError,
            >(RaqmError::Failed),
            old(self)@.phase == Phase::LaidOut && old(self)@.glyphs is Some ==> r is Ok
                && position_to_index_post(
                old(self)@.glyphs->Some_0,
                old(self)@.vertical(),
                x as int,
                y as int,
                r->Ok_0,
            ),
    {
        match (&self.phase, &self.glyphs) {
            (Phase::LaidOut, Some(glyphs)) => {
                let vertical = match self.direction {
                    Direction::TopToBottom => true,
                    _ => false,
                };
                Ok(glyphs_position_to_index(glyphs, vertical, x, y))
            },
            _ => Err(RaqmError::Failed),
        }
    }

    /// The language tag in effect at text index `index` under the
    /// recorded table: the tag of the latest-added range containing the
    /// index, or `None` where no range covers it — the same
    /// last-write-wins resolution the engine applies to the replayed
    /// calls.
    pub fn effective_language(&self, index: usize) -> (r: Option<String>)
        ensures
            match r {
                Some(tag) => language_at(self@.languages, index as int) == Some(tag@),
                None => language_at(self@.languages, index as int) is None,
            },
    {
        let n = self.languages.len();
        proof {
            assert(self@.languages.take(n as int) =~= self@.languages);
        }
        let mut j: usize = n;
        while j > 0
            invariant
                j <= n,
                n == self.languages@.len(),
                language_at(self@.languages, index as int) == language_at(
                    self@.languages.take(j as int),
                    index as int,
                ),
            decreases j,
        {
            let range = &self.languages[j - 1];
            proof {
                assert(self@.languages.take(j as int).last() == self.languages@[j - 1]@);
                assert(self@.languages.take(j as int).drop_last() =~= self@.languages.take(
                    j as int - 1,
                ));
            }
            if range.start <= index && index < range.end {
                return Some(range.tag.as_str().to_owned());
            }
            j = j - 1;
        }
        proof {
            assert(self@.languages.take(0) =~= Seq::<LanguageRangeView>::empty());
        }
        None
    }

    /// The font face in effect at text index `index` under the recorded
    /// table, by the same last-write-wins resolution as the language.
    pub fn effective_font(&self, index: usize) -> (r: Option<FontRef>)
        ensures
            font_at(self@.fonts, index as int) == r,
    {
        let n = self.fonts.len();
        proof {
            assert(self@.fonts.take(n as int) =~= self@.fonts);
        }
        let mut j: usize = n;
        while j > 0
            invariant
                j <= n,
                n == self.fonts@.len(),
                font_at(self@.fonts, index as int) == font_at(
                    self@.fonts.take(j as int),
                    index as int,
                ),
            decreases j,
        {
            let range = &self.fonts[j - 1];
            proof {
                assert(self@.fonts.take(j as int).last() == self.fonts@[j - 1]@);
                assert(self@.fonts.take(j as int).drop_last() =~= self@.fonts.take(j as int - 1));
            }
            if range.start <= index && index < range.end {
                return Some(range.face);
            }
            j = j - 1;
        }
        proof {
            assert(self@.fonts.take(0) =~= Seq::<FontRangeView>::empty());
        }
        None
    }

    /// Tears the session down, releasing everything it owns.  Valid in
    /// every phase and never fails; destroying one session leaves every
    /// other session untouched, since a session shares nothing.
    pub fn destroy(self) {
    }
}

/// Shaping drops no character: once a session is laid out and a non-empty
/// glyph sequence has been handed over, every character index of its text
/// has a cluster at or before it — so each character belongs to the
/// cluster it snaps to, and none has silently vanished from the output.
pub proof fn lemma_laid_out_covers_text(v: SessionView, i: int)
    requires
        v.wf(),
        v.glyphs is Some,
        v.glyphs->Some_0.len() > 0,
        0 <= i < v.text_len(),
    ensures
        has_cluster_at_most(v.glyphs->Some_0, i),
        exists|c: u32| snaps_to(v.glyphs->Some_0, i, c),
{
    crate::mapper::lemma_clusters_cover_text(v.glyphs->Some_0, v.text_len(), i);
}

/// Re-materializes a glyph sequence element by element: the returned
/// vector holds the same records in the same order.
fn copy_glyphs(glyphs: &Vec<Glyph>) -> (r: Vec<Glyph>)
    ensures
        r@ == glyphs@,
{
    let mut out: Vec<Glyph> = Vec::new();
    let mut j: usize = 0;
    while j < glyphs.len()
        invariant
            j <= glyphs@.len(),
            out@ == glyphs@.take(j as int),
        decreases glyphs@.len() - j,
    {
        out.push(glyphs[j]);
        proof {
            assert(out@ =~= glyphs@.take(j as int + 1));
        }
        j = j + 1;
    }
    proof {
        assert(glyphs@.take(glyphs@.len() as int) =~= glyphs@);
    }
    out
}

} // verus!
