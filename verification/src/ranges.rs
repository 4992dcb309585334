//! The attribute range table: per-range language tags and font faces,
//! recorded in call order and replayed against the engine in that order
//! during layout.
//!
//! No merging or overlap resolution happens locally: where ranges overlap,
//! the engine's call order makes the later addition win for the overlapping
//! portion.  The spec functions here state exactly that last-write-wins
//! reading, and the lookup methods of the session are proved against them.

use vstd::prelude::*;

verus! {

/// A language range: a BCP47 language tag applied to the half-open index
/// interval `[start, end)` of the text buffer, in its native units.
pub struct LanguageRange {
    pub start: usize,
    pub end: usize,
    pub tag: String,
}

/// The mathematical model of a language range.
pub ghost struct LanguageRangeView {
    pub start: int,
    pub end: int,
    pub tag: Seq<char>,
}

impl View for LanguageRange {
    type V = LanguageRangeView;

    open spec fn view(&self) -> LanguageRangeView {
        LanguageRangeView { start: self.start as int, end: self.end as int, tag: self.tag@ }
    }
}

/// A font range: a font face applied to the half-open index interval
/// `[start, end)` of the text buffer, in its native units.
pub struct FontRange {
    pub start: usize,
    pub end: usize,
    pub face: crate::glyph::FontRef,
}

/// The mathematical model of a font range.
pub ghost struct FontRangeView {
    pub start: int,
    pub end: int,
    pub face: crate::glyph::FontRef,
}

impl View for FontRange {
    type V = FontRangeView;

    open spec fn view(&self) -> FontRangeView {
        FontRangeView { start: self.start as int, end: self.end as int, face: self.face }
    }
}

/// Whether every range in `rs` lies within a text of `len` units:
/// `start <= end <= len` for each.
pub open spec fn language_ranges_wf(rs: Seq<LanguageRangeView>, len: nat) -> bool {
    forall|k: int| 0 <= k < rs.len() ==> (#[trigger] rs[k]).start <= rs[k].end <= len
}

/// Whether every font range in `rs` lies within a text of `len` units.
pub open spec fn font_ranges_wf(rs: Seq<FontRangeView>, len: nat) -> bool {
    forall|k: int| 0 <= k < rs.len() ==> (#[trigger] rs[k]).start <= rs[k].end <= len
}

/// The language tag in effect at text index `i` under the table `rs`: the
/// tag of the latest-added range that contains `i`, or `None` where no
/// range contains `i`.  This is the last-write-wins overlap rule that the
/// engine's call-order replay realizes.
pub open spec fn language_at(rs: Seq<LanguageRangeView>, i: int) -> Option<Seq<char>>
    decreases rs.len(),
{
    if rs.len() == 0 {
        None
    } else if rs.last().start <= i < rs.last().end {
        Some(rs.last().tag)
    } else {
        language_at(rs.drop_last(), i)
    }
}

/// The font face in effect at text index `i` under the table `rs`, by the
/// same last-write-wins rule.
pub open spec fn font_at(rs: Seq<FontRangeView>, i: int) -> Option<crate::glyph::FontRef>
    decreases rs.len(),
{
    if rs.len() == 0 {
        None
    } else if rs.last().start <= i < rs.last().end {
        Some(rs.last().face)
    } else {
        font_at(rs.drop_last(), i)
    }
}

/// Last write wins: once a range covering `i` is added, the language in
/// effect at `i` is that range's tag, whatever was in the table before.
/// In particular, for the covered sub-span the table behaves as if only
/// the later range had ever been set there.
pub proof fn lemma_language_last_write_wins(rs: Seq<LanguageRangeView>, r: LanguageRangeView, i: int)
    requires
        r.start <= i < r.end,
    ensures
        language_at(rs.push(r), i) == Some(r.tag),
{
    assert(rs.push(r).last() == r);
}

/// A later addition that does not cover `i` leaves the language in effect
/// at `i` untouched: earlier ranges keep governing the rest of the text.
pub proof fn lemma_language_untouched(rs: Seq<LanguageRangeView>, r: LanguageRangeView, i: int)
    requires
        !(r.start <= i < r.end),
    ensures
        language_at(rs.push(r), i) == language_at(rs, i),
{
    assert(rs.push(r).last() == r);
    assert(rs.push(r).drop_last() =~= rs);
}

/// Last write wins for font ranges, as for language ranges.
pub proof fn lemma_font_last_write_wins(rs: Seq<FontRangeView>, r: FontRangeView, i: int)
    requires
        r.start <= i < r.end,
    ensures
        font_at(rs.push(r), i) == Some(r.face),
{
    assert(rs.push(r).last() == r);
}

} // verus!
