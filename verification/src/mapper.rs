//! The coordinate mapper: the two inverse queries between character indices
//! and visual (x, y) coordinates, computed from the engine's post-layout
//! glyph sequence.
//!
//! The model of a laid-out line: glyphs stand in visual order, the pen
//! starts at the origin and moves by each glyph's advance, so glyph `j`
//! occupies the interval from the sum of the advances before it to that sum
//! plus its own advance, along the dominant axis (x for horizontal text, y
//! for vertical).  A cluster — the glyphs of one originating character
//! index — is a contiguous block in visual order; the cursor after a
//! character sits at the block's right edge for a left-to-right character
//! and at its left edge for a right-to-left one.

use vstd::prelude::*;

use crate::glyph::Glyph;
use crate::position::Position;

verus! {

/// The advance of `g` along the dominant axis.
pub open spec fn axis_advance(g: Glyph, vertical: bool) -> int {
    if vertical {
        g.y_advance as int
    } else {
        g.x_advance as int
    }
}

/// The pen's x coordinate before glyph `k`: the sum of the x advances of
/// the glyphs before it in visual order.
pub open spec fn prefix_x(gs: Seq<Glyph>, k: int) -> int
    decreases k,
{
    if k <= 0 {
        0
    } else {
        prefix_x(gs, k - 1) + gs[k - 1].x_advance
    }
}

/// The pen's y coordinate before glyph `k`.
pub open spec fn prefix_y(gs: Seq<Glyph>, k: int) -> int
    decreases k,
{
    if k <= 0 {
        0
    } else {
        prefix_y(gs, k - 1) + gs[k - 1].y_advance
    }
}

/// The pen coordinate before glyph `k` along the dominant axis.
pub open spec fn prefix_axis(gs: Seq<Glyph>, vertical: bool, k: int) -> int {
    if vertical {
        prefix_y(gs, k)
    } else {
        prefix_x(gs, k)
    }
}

/// Whether some glyph originates from character index `c`.
pub open spec fn has_cluster(gs: Seq<Glyph>, c: u32) -> bool {
    exists|j: int| 0 <= j < gs.len() && (#[trigger] gs[j]).cluster == c
}

/// Whether some glyph's cluster lies at or before character index `i`.
pub open spec fn has_cluster_at_most(gs: Seq<Glyph>, i: int) -> bool {
    exists|j: int| 0 <= j < gs.len() && (#[trigger] gs[j]).cluster <= i
}

/// Whether the glyphs of each cluster stand consecutively in visual order:
/// wherever a new run starts, its cluster has not occurred before.
pub open spec fn clusters_contiguous(gs: Seq<Glyph>) -> bool {
    forall|j: int, k: int|
        0 <= k < j < gs.len() && (#[trigger] gs[j]).cluster != gs[j - 1].cluster
            ==> (#[trigger] gs[k]).cluster != gs[j].cluster
}

/// Whether every advance of every glyph is non-negative: the pen never
/// moves backwards in this model.
pub open spec fn advances_nonneg(gs: Seq<Glyph>) -> bool {
    forall|j: int|
        0 <= j < gs.len() ==> (#[trigger] gs[j]).x_advance >= 0 && gs[j].y_advance >= 0
}

/// The shape every glyph sequence must have for the mapper to work on it:
/// non-negative advances whose totals fit in the coordinate type, and
/// contiguous clusters.
pub open spec fn glyphs_metrics_wf(gs: Seq<Glyph>) -> bool {
    &&& advances_nonneg(gs)
    &&& prefix_x(gs, gs.len() as int) <= i32::MAX as int
    &&& prefix_y(gs, gs.len() as int) <= i32::MAX as int
    &&& clusters_contiguous(gs)
}

/// The full well-formedness of an engine glyph sequence against a text of
/// `text_len` native units: sound metrics, every cluster index inside the
/// text, and — unless the sequence is empty — a cluster at the very start,
/// so that every character index belongs to some cluster.
pub open spec fn glyphs_wf(gs: Seq<Glyph>, text_len: nat) -> bool {
    &&& glyphs_metrics_wf(gs)
    &&& forall|j: int| 0 <= j < gs.len() ==> (#[trigger] gs[j]).cluster < text_len
    &&& (gs.len() > 0 ==> has_cluster(gs, 0))
}

/// Whether `[a, b)` is the maximal run of glyphs of cluster `c` around its
/// first occurrence.  With contiguous clusters this run holds every glyph
/// of the cluster.
pub open spec fn is_block(gs: Seq<Glyph>, c: u32, a: int, b: int) -> bool {
    &&& 0 <= a < b <= gs.len()
    &&& forall|j: int| a <= j < b ==> (#[trigger] gs[j]).cluster == c
    &&& (a == 0 || gs[a - 1].cluster != c)
    &&& (b == gs.len() || gs[b].cluster != c)
}

/// Whether the character of cluster `c`, occupying the run `[a, b)`, runs
/// right-to-left: its visual successor originates from an earlier character
/// (or, at the line's visual end, its visual predecessor from a later one);
/// a line of a single cluster falls back to the paragraph direction.
pub open spec fn block_rtl(gs: Seq<Glyph>, rtl_par: bool, c: u32, a: int, b: int) -> bool {
    if b < gs.len() {
        gs[b].cluster < c
    } else if a > 0 {
        gs[a - 1].cluster > c
    } else {
        rtl_par
    }
}

/// Whether `c` is the cluster boundary the input index `i` snaps to: the
/// greatest cluster at or before `i`, or the least cluster of the line when
/// every cluster lies after `i`.
pub open spec fn snaps_to(gs: Seq<Glyph>, i: int, c: u32) -> bool {
    &&& has_cluster(gs, c)
    &&& if has_cluster_at_most(gs, i) {
        c <= i && forall|j: int|
            0 <= j < gs.len() && (#[trigger] gs[j]).cluster <= i ==> gs[j].cluster <= c
    } else {
        forall|j: int| 0 <= j < gs.len() ==> c <= (#[trigger] gs[j]).cluster
    }
}

/// Exactly what the index-to-position query returns, given the glyph
/// sequence, the resolved paragraph direction and the input index: on an
/// empty line the origin with index 0; otherwise the snapped cluster
/// boundary, and the pen position at that cluster's left edge for a
/// right-to-left character, at its right edge for a left-to-right one.
pub open spec fn index_to_position_post(
    gs: Seq<Glyph>,
    rtl_par: bool,
    i: int,
    p: Position,
) -> bool {
    if gs.len() == 0 {
        p == (Position { index: 0, x: 0, y: 0 })
    } else {
        exists|c: u32, a: int, b: int|
            {
                &&& p.index == c as usize
                &&& #[trigger] is_block(gs, c, a, b)
                &&& snaps_to(gs, i, c)
                &&& p.x == prefix_x(gs, if block_rtl(gs, rtl_par, c, a, b) { a } else { b })
                &&& p.y == prefix_y(gs, if block_rtl(gs, rtl_par, c, a, b) { a } else { b })
            }
    }
}

/// Exactly what the position-to-index query returns: on an empty line 0;
/// for a coordinate before the line's extent the visually first glyph's
/// character, past the extent the visually last one's; otherwise the
/// character of the glyph whose span along the dominant axis contains the
/// coordinate.
pub open spec fn position_to_index_post(
    gs: Seq<Glyph>,
    vertical: bool,
    x: int,
    y: int,
    r: usize,
) -> bool {
    let v = if vertical { y } else { x };
    if gs.len() == 0 {
        r == 0
    } else if v < 0 {
        r == gs[0].cluster as usize
    } else if v >= prefix_axis(gs, vertical, gs.len() as int) {
        r == gs[gs.len() - 1].cluster as usize
    } else {
        exists|j: int|
            0 <= j < gs.len() && (#[trigger] prefix_axis(gs, vertical, j)) <= v < prefix_axis(
                gs,
                vertical,
                j,
            ) + axis_advance(gs[j], vertical) && r == gs[j].cluster as usize
    }
}

/// The pen never moves backwards: with non-negative advances the prefix
/// sums grow with the glyph index.
pub proof fn lemma_prefix_x_monotone(gs: Seq<Glyph>, j: int, k: int)
    requires
        advances_nonneg(gs),
        0 <= j <= k <= gs.len(),
    ensures
        0 <= prefix_x(gs, j) <= prefix_x(gs, k),
    decreases k,
{
    if k > j {
        lemma_prefix_x_monotone(gs, j, k - 1);
    } else if k > 0 {
        lemma_prefix_x_monotone(gs, 0, k - 1);
    }
}

/// As for x: the y prefix sums grow with the glyph index.
pub proof fn lemma_prefix_y_monotone(gs: Seq<Glyph>, j: int, k: int)
    requires
        advances_nonneg(gs),
        0 <= j <= k <= gs.len(),
    ensures
        0 <= prefix_y(gs, j) <= prefix_y(gs, k),
    decreases k,
{
    if k > j {
        lemma_prefix_y_monotone(gs, j, k - 1);
    } else if k > 0 {
        lemma_prefix_y_monotone(gs, 0, k - 1);
    }
}

/// Whether the glyphs stand in left-to-right visual order: the originating
/// character index never decreases along the line.  A line without
/// direction changes laid out left-to-right has this shape.
pub open spec fn ltr_visual_order(gs: Seq<Glyph>) -> bool {
    forall|j1: int, j2: int|
        0 <= j1 <= j2 < gs.len() ==> (#[trigger] gs[j1]).cluster <= (#[trigger] gs[j2]).cluster
}

/// Whether the glyphs stand in right-to-left visual order: the originating
/// character index never increases along the line.
pub open spec fn rtl_visual_order(gs: Seq<Glyph>) -> bool {
    forall|j1: int, j2: int|
        0 <= j1 <= j2 < gs.len() ==> (#[trigger] gs[j1]).cluster >= (#[trigger] gs[j2]).cluster
}

/// Every input index snaps to some cluster: helper that turns one glyph
/// whose cluster lies at or before `i` into the greatest such cluster.
proof fn lemma_snap_exists_from(gs: Seq<Glyph>, i: int, j: int)
    requires
        0 <= j < gs.len(),
        gs[j].cluster <= i,
    ensures
        exists|c: u32| snaps_to(gs, i, c),
    decreases i - gs[j].cluster,
{
    if forall|k: int| 0 <= k < gs.len() && (#[trigger] gs[k]).cluster <= i ==> gs[k].cluster
        <= gs[j].cluster {
        assert(snaps_to(gs, i, gs[j].cluster));
    } else {
        let k = choose|k: int|
            0 <= k < gs.len() && (#[trigger] gs[k]).cluster <= i && gs[k].cluster > gs[j].cluster;
        lemma_snap_exists_from(gs, i, k);
    }
}

/// Shaping drops no character: over a well-formed laid-out line, every
/// character index of the text has a cluster at or before it — the line
/// covers the text from its start — and so snaps to exactly the cluster
/// it belongs to.  No character escapes the glyph sequence's coverage.
pub proof fn lemma_clusters_cover_text(gs: Seq<Glyph>, text_len: nat, i: int)
    requires
        glyphs_wf(gs, text_len),
        gs.len() > 0,
        0 <= i < text_len,
    ensures
        has_cluster_at_most(gs, i),
        exists|c: u32| snaps_to(gs, i, c),
{
    let j = choose|j: int| 0 <= j < gs.len() && (#[trigger] gs[j]).cluster == 0;
    assert(gs[j].cluster <= i);
    lemma_snap_exists_from(gs, i, j);
}

/// Decides whether an engine glyph array fits the model of a laid-out
/// line over a text of `text_len` native units.  The session runs this on
/// the array handed over after layout before accepting it.
pub fn glyphs_well_formed(glyphs: &Vec<Glyph>, text_len: usize) -> (b: bool)
    ensures
        b == glyphs_wf(glyphs@, text_len as nat),
{
    let n = glyphs.len();
    if n == 0 {
        return true;
    }
    let mut sum_x: i64 = 0;
    let mut sum_y: i64 = 0;
    let mut found0: bool = false;
    let mut j: usize = 0;
    while j < n
        invariant
            glyphs@.len() == n,
            j <= n,
            forall|k: int|
                0 <= k < j ==> (#[trigger] glyphs@[k]).x_advance >= 0 && glyphs@[k].y_advance
                    >= 0,
            forall|k: int| 0 <= k < j ==> (#[trigger] glyphs@[k]).cluster < text_len,
            sum_x as int == prefix_x(glyphs@, j as int),
            sum_y as int == prefix_y(glyphs@, j as int),
            sum_x <= i32::MAX as i64,
            sum_y <= i32::MAX as i64,
            found0 == exists|k: int| 0 <= k < j && (#[trigger] glyphs@[k]).cluster == 0,
        decreases n - j,
    {
        let g = glyphs[j];
        if g.x_advance < 0 || g.y_advance < 0 {
            return false;
        }
        if text_len <= g.cluster as usize {
            return false;
        }
        if g.cluster == 0 {
            found0 = true;
        }
        sum_x = sum_x + g.x_advance as i64;
        sum_y = sum_y + g.y_advance as i64;
        if sum_x > i32::MAX as i64 || sum_y > i32::MAX as i64 {
            proof {
                if advances_nonneg(glyphs@) {
                    lemma_prefix_x_monotone(glyphs@, j as int + 1, glyphs@.len() as int);
                    lemma_prefix_y_monotone(glyphs@, j as int + 1, glyphs@.len() as int);
                }
            }
            return false;
        }
        j = j + 1;
    }
    if !found0 {
        return false;
    }
    let mut j: usize = 1;
    while j < n
        invariant
            glyphs@.len() == n,
            1 <= j <= n,
            forall|p: int, k: int|
                0 <= k < p < j && (#[trigger] glyphs@[p]).cluster != glyphs@[p - 1].cluster
                    ==> (#[trigger] glyphs@[k]).cluster != glyphs@[p].cluster,
        decreases n - j,
    {
        if glyphs[j].cluster != glyphs[j - 1].cluster {
            let c = glyphs[j].cluster;
            let mut k: usize = 0;
            while k < j
                invariant
                    glyphs@.len() == n,
                    1 <= j < n,
                    k <= j,
                    c == glyphs@[j as int].cluster,
                    glyphs@[j as int].cluster != glyphs@[j - 1].cluster,
                    forall|t: int| 0 <= t < k ==> (#[trigger] glyphs@[t]).cluster != c,
                decreases j - k,
            {
                if glyphs[k].cluster == c {
                    proof {
                        assert(!clusters_contiguous(glyphs@));
                    }
                    return false;
                }
                k = k + 1;
            }
        }
        j = j + 1;
    }
    proof {
        assert(glyphs_wf(glyphs@, text_len as nat));
    }
    true
}

/// The cursor position after the character at `index`, computed from the
/// glyph sequence of a laid-out line.  `rtl_par` is the resolved paragraph
/// direction, used only for a line of a single cluster.
pub fn glyphs_index_to_position(glyphs: &Vec<Glyph>, rtl_par: bool, index: usize) -> (p: Position)
    requires
        glyphs_metrics_wf(glyphs@),
    ensures
        index_to_position_post(glyphs@, rtl_par, index as int, p),
{
    let n = glyphs.len();
    if n == 0 {
        return Position { index: 0, x: 0, y: 0 };
    }
    // The snapped cluster: the greatest cluster at or before `index`, or
    // the least cluster of the line when none lies at or before it.
    let mut best_le: Option<u32> = None;
    let mut min_c: u32 = glyphs[0].cluster;
    let mut j: usize = 0;
    while j < n
        invariant
            glyphs@.len() == n,
            n > 0,
            j <= n,
            has_cluster(glyphs@, min_c),
            forall|k: int| 0 <= k < j ==> min_c <= (#[trigger] glyphs@[k]).cluster,
            match best_le {
                Some(c) => {
                    &&& has_cluster(glyphs@, c)
                    &&& c as int <= index as int
                    &&& forall|k: int|
                        0 <= k < j && (#[trigger] glyphs@[k]).cluster <= index as int
                            ==> glyphs@[k].cluster <= c
                },
                None => forall|k: int|
                    0 <= k < j ==> (#[trigger] glyphs@[k]).cluster > index as int,
            },
        decreases n - j,
    {
        let c = glyphs[j].cluster;
        if c < min_c {
            min_c = c;
        }
        if c as usize <= index {
            match best_le {
                Some(b) => {
                    if c > b {
                        best_le = Some(c);
                    }
                },
                None => {
                    best_le = Some(c);
                },
            }
        }
        j = j + 1;
    }
    let snapped: u32 = match best_le {
        Some(c) => c,
        None => min_c,
    };
    proof {
        assert(snaps_to(glyphs@, index as int, snapped));
    }
    // The maximal run of the snapped cluster around its first occurrence.
    let mut a: usize = 0;
    while a < n && glyphs[a].cluster != snapped
        invariant
            glyphs@.len() == n,
            a <= n,
            forall|k: int| 0 <= k < a ==> (#[trigger] glyphs@[k]).cluster != snapped,
            has_cluster(glyphs@, snapped),
        decreases n - a,
    {
        a = a + 1;
    }
    proof {
        assert(a < n) by {
            assert(has_cluster(glyphs@, snapped));
        }
    }
    let mut b: usize = a + 1;
    while b < n && glyphs[b].cluster == snapped
        invariant
            glyphs@.len() == n,
            a < b <= n,
            forall|k: int| a <= k < b ==> (#[trigger] glyphs@[k]).cluster == snapped,
        decreases n - b,
    {
        b = b + 1;
    }
    proof {
        assert(is_block(glyphs@, snapped, a as int, b as int));
    }
    let rtl: bool = if b < n {
        glyphs[b].cluster < snapped
    } else if a > 0 {
        glyphs[a - 1].cluster > snapped
    } else {
        rtl_par
    };
    let edge: usize = if rtl {
        a
    } else {
        b
    };
    // The pen position before glyph `edge`.
    let mut x: i32 = 0;
    let mut y: i32 = 0;
    let mut k: usize = 0;
    while k < edge
        invariant
            glyphs@.len() == n,
            edge <= n,
            k <= edge,
            glyphs_metrics_wf(glyphs@),
            x as int == prefix_x(glyphs@, k as int),
            y as int == prefix_y(glyphs@, k as int),
        decreases edge - k,
    {
        proof {
            lemma_prefix_x_monotone(glyphs@, k as int + 1, glyphs@.len() as int);
            lemma_prefix_x_monotone(glyphs@, 0, k as int + 1);
            lemma_prefix_y_monotone(glyphs@, k as int + 1, glyphs@.len() as int);
            lemma_prefix_y_monotone(glyphs@, 0, k as int + 1);
        }
        x = x + glyphs[k].x_advance;
        y = y + glyphs[k].y_advance;
        k = k + 1;
    }
    let p = Position { index: snapped as usize, x, y };
    proof {
        let c = snapped;
        let ai = a as int;
        let bi = b as int;
        assert(rtl == block_rtl(glyphs@, rtl_par, c, ai, bi));
        assert(p.x == prefix_x(glyphs@, if block_rtl(glyphs@, rtl_par, c, ai, bi) { ai } else { bi }));
        assert(p.y == prefix_y(glyphs@, if block_rtl(glyphs@, rtl_par, c, ai, bi) { ai } else { bi }));
        assert(index_to_position_post(glyphs@, rtl_par, index as int, p));
    }
    p
}

/// The character index whose glyph span contains the given coordinate
/// along the dominant axis, clamped to the visually first or last character
/// when the coordinate lies outside the line's extent.
pub fn glyphs_position_to_index(glyphs: &Vec<Glyph>, vertical: bool, x: i32, y: i32) -> (r: usize)
    requires
        glyphs_metrics_wf(glyphs@),
    ensures
        position_to_index_post(glyphs@, vertical, x as int, y as int, r),
{
    let n = glyphs.len();
    if n == 0 {
        return 0;
    }
    let v: i32 = if vertical {
        y
    } else {
        x
    };
    if v < 0 {
        return glyphs[0].cluster as usize;
    }
    let mut sum: i32 = 0;
    let mut j: usize = 0;
    while j < n
        invariant
            glyphs@.len() == n,
            n > 0,
            j <= n,
            glyphs_metrics_wf(glyphs@),
            sum as int == prefix_axis(glyphs@, vertical, j as int),
            v as int >= sum as int,
            v >= 0,
            v == (if vertical { y } else { x }),
        decreases n - j,
    {
        proof {
            lemma_prefix_x_monotone(glyphs@, j as int + 1, glyphs@.len() as int);
            lemma_prefix_x_monotone(glyphs@, 0, j as int + 1);
            lemma_prefix_y_monotone(glyphs@, j as int + 1, glyphs@.len() as int);
            lemma_prefix_y_monotone(glyphs@, 0, j as int + 1);
        }
        let adv: i32 = if vertical {
            glyphs[j].y_advance
        } else {
            glyphs[j].x_advance
        };
        let nxt: i32 = sum + adv;
        if v < nxt {
            proof {
                let ji = j as int;
                // glyph `ji`'s span contains `v`, which also places `v`
                // inside the line's total extent
                assert(prefix_axis(glyphs@, vertical, ji) <= v as int);
                assert((v as int) < prefix_axis(glyphs@, vertical, ji) + axis_advance(
                    glyphs@[ji],
                    vertical,
                ));
                assert(prefix_axis(glyphs@, vertical, ji + 1) == prefix_axis(glyphs@, vertical, ji)
                    + axis_advance(glyphs@[ji], vertical));
                assert((v as int) < prefix_axis(glyphs@, vertical, glyphs@.len() as int));
            }
            return glyphs[j].cluster as usize;
        }
        sum = nxt;
        j = j + 1;
    }
    glyphs[n - 1].cluster as usize
}

/// Under left-to-right visual order no cluster is right-to-left: its
/// visual successor, where it has one, originates from a later character.
proof fn lemma_ltr_block_not_rtl(gs: Seq<Glyph>, c: u32, a: int, b: int)
    requires
        ltr_visual_order(gs),
        is_block(gs, c, a, b),
    ensures
        !block_rtl(gs, false, c, a, b),
{
    if b < gs.len() {
        assert(gs[b - 1].cluster == c);
        assert(gs[b - 1].cluster <= gs[b].cluster);
    } else if a > 0 {
        assert(gs[a].cluster == c);
        assert(gs[a - 1].cluster <= gs[a].cluster);
    }
}

/// Under right-to-left visual order every cluster of a line laid out with
/// a right-to-left paragraph direction is right-to-left.
proof fn lemma_rtl_block_rtl(gs: Seq<Glyph>, c: u32, a: int, b: int)
    requires
        rtl_visual_order(gs),
        is_block(gs, c, a, b),
    ensures
        block_rtl(gs, true, c, a, b),
{
    if b < gs.len() {
        assert(gs[b - 1].cluster == c);
        assert(gs[b - 1].cluster >= gs[b].cluster);
    } else if a > 0 {
        assert(gs[a].cluster == c);
        assert(gs[a - 1].cluster >= gs[a].cluster);
    }
}

/// The index an input snaps to grows with the input: for `i1 <= i2` the
/// snapped cluster of `i1` is at most that of `i2`.
proof fn lemma_snap_monotone(gs: Seq<Glyph>, i1: int, i2: int, c1: u32, c2: u32)
    requires
        gs.len() > 0,
        i1 <= i2,
        snaps_to(gs, i1, c1),
        snaps_to(gs, i2, c2),
    ensures
        c1 <= c2,
{
    if has_cluster_at_most(gs, i1) {
        let w = choose|w: int| 0 <= w < gs.len() && (#[trigger] gs[w]).cluster <= i1;
        assert(gs[w].cluster <= i2);
        assert(has_cluster_at_most(gs, i2));
        let w1 = choose|w1: int| 0 <= w1 < gs.len() && (#[trigger] gs[w1]).cluster == c1;
        assert(gs[w1].cluster <= i2);
    } else {
        let w2 = choose|w2: int| 0 <= w2 < gs.len() && (#[trigger] gs[w2]).cluster == c2;
        assert(c1 <= gs[w2].cluster);
    }
}

/// Two blocks of the same cluster coincide: under left-to-right or
/// right-to-left visual order the glyphs of one cluster form a single
/// maximal run.
proof fn lemma_block_unique(gs: Seq<Glyph>, c: u32, a1: int, b1: int, a2: int, b2: int)
    requires
        ltr_visual_order(gs) || rtl_visual_order(gs),
        is_block(gs, c, a1, b1),
        is_block(gs, c, a2, b2),
    ensures
        a1 == a2,
        b1 == b2,
{
    assert(gs[a1].cluster == c);
    assert(gs[a2].cluster == c);
    if a1 < a2 {
        assert(gs[a2 - 1].cluster == c) by {
            assert(gs[a1].cluster == c && gs[a2].cluster == c);
            assert(a1 <= a2 - 1 <= a2);
        }
        assert(false);
    }
    if a2 < a1 {
        assert(gs[a1 - 1].cluster == c) by {
            assert(a2 <= a1 - 1 <= a1);
        }
        assert(false);
    }
    if b1 < b2 {
        assert(gs[b1].cluster == c) by {
            assert(a2 <= b1 < b2);
        }
        assert(false);
    }
    if b2 < b1 {
        assert(gs[b2].cluster == c) by {
            assert(a1 <= b2 < b1);
        }
        assert(false);
    }
}

/// The cursor moves monotonically with the character index along a
/// left-to-right line: for input indices `i1 <= i2` the returned snapped
/// index and the returned x coordinate never decrease.  This is the
/// monotonicity of the index-to-position query along the dominant
/// paragraph direction within a single direction run.
pub proof fn lemma_index_to_position_monotone(
    gs: Seq<Glyph>,
    i1: int,
    i2: int,
    p1: Position,
    p2: Position,
)
    requires
        glyphs_metrics_wf(gs),
        gs.len() > 0,
        ltr_visual_order(gs),
        i1 <= i2,
        index_to_position_post(gs, false, i1, p1),
        index_to_position_post(gs, false, i2, p2),
    ensures
        p1.index <= p2.index,
        p1.x <= p2.x,
{
    let (c1, a1, b1) = choose|c: u32, a: int, b: int|
        {
            &&& p1.index == c as usize
            &&& #[trigger] is_block(gs, c, a, b)
            &&& snaps_to(gs, i1, c)
            &&& p1.x == prefix_x(gs, if block_rtl(gs, false, c, a, b) { a } else { b })
            &&& p1.y == prefix_y(gs, if block_rtl(gs, false, c, a, b) { a } else { b })
        };
    let (c2, a2, b2) = choose|c: u32, a: int, b: int|
        {
            &&& p2.index == c as usize
            &&& #[trigger] is_block(gs, c, a, b)
            &&& snaps_to(gs, i2, c)
            &&& p2.x == prefix_x(gs, if block_rtl(gs, false, c, a, b) { a } else { b })
            &&& p2.y == prefix_y(gs, if block_rtl(gs, false, c, a, b) { a } else { b })
        };
    lemma_ltr_block_not_rtl(gs, c1, a1, b1);
    lemma_ltr_block_not_rtl(gs, c2, a2, b2);
    lemma_snap_monotone(gs, i1, i2, c1, c2);
    if c1 == c2 {
        lemma_block_unique(gs, c1, a1, b1, a2, b2);
    } else {
        assert(gs[b1 - 1].cluster == c1);
        assert(gs[a2].cluster == c2);
        assert(b1 <= a2) by {
            if a2 <= b1 - 1 {
                assert(gs[a2].cluster <= gs[b1 - 1].cluster);
            }
        }
        lemma_prefix_x_monotone(gs, b1, b2);
    }
}

/// The cursor moves monotonically with the character index along a
/// right-to-left line as well, in the line's own direction: for input
/// indices `i1 <= i2` the returned snapped index never decreases and the
/// returned x coordinate never increases — a later character sits further
/// left.
pub proof fn lemma_index_to_position_monotone_rtl(
    gs: Seq<Glyph>,
    i1: int,
    i2: int,
    p1: Position,
    p2: Position,
)
    requires
        glyphs_metrics_wf(gs),
        gs.len() > 0,
        rtl_visual_order(gs),
        i1 <= i2,
        index_to_position_post(gs, true, i1, p1),
        index_to_position_post(gs, true, i2, p2),
    ensures
        p1.index <= p2.index,
        p1.x >= p2.x,
{
    let (c1, a1, b1) = choose|c: u32, a: int, b: int|
        {
            &&& p1.index == c as usize
            &&& #[trigger] is_block(gs, c, a, b)
            &&& snaps_to(gs, i1, c)
            &&& p1.x == prefix_x(gs, if block_rtl(gs, true, c, a, b) { a } else { b })
            &&& p1.y == prefix_y(gs, if block_rtl(gs, true, c, a, b) { a } else { b })
        };
    let (c2, a2, b2) = choose|c: u32, a: int, b: int|
        {
            &&& p2.index == c as usize
            &&& #[trigger] is_block(gs, c, a, b)
            &&& snaps_to(gs, i2, c)
            &&& p2.x == prefix_x(gs, if block_rtl(gs, true, c, a, b) { a } else { b })
            &&& p2.y == prefix_y(gs, if block_rtl(gs, true, c, a, b) { a } else { b })
        };
    lemma_rtl_block_rtl(gs, c1, a1, b1);
    lemma_rtl_block_rtl(gs, c2, a2, b2);
    lemma_snap_monotone(gs, i1, i2, c1, c2);
    if c1 == c2 {
        lemma_block_unique(gs, c1, a1, b1, a2, b2);
    } else {
        assert(gs[a1].cluster == c1);
        assert(gs[b2 - 1].cluster == c2);
        assert(b2 <= a1) by {
            if a1 <= b2 - 1 {
                assert(gs[a1].cluster >= gs[b2 - 1].cluster);
            }
        }
        lemma_prefix_x_monotone(gs, a2, a1);
    }
}

/// Round trip on a left-to-right line with positive advances: feeding the
/// position returned for index `i` back into the position-to-index query
/// returns either the very cluster `i` snapped to or the next cluster
/// boundary after it, with no boundary in between — the round trip stays
/// within one shaping cluster of the input.
pub proof fn lemma_round_trip_ltr(gs: Seq<Glyph>, i: int, p: Position, r: usize)
    requires
        glyphs_metrics_wf(gs),
        gs.len() > 0,
        ltr_visual_order(gs),
        forall|j: int| 0 <= j < gs.len() ==> (#[trigger] gs[j]).x_advance > 0,
        index_to_position_post(gs, false, i, p),
        position_to_index_post(gs, false, p.x as int, p.y as int, r),
    ensures
        r == p.index || (p.index < r && has_cluster(gs, r as u32) && forall|j: int|
            0 <= j < gs.len() ==> !(p.index < (#[trigger] gs[j]).cluster < r)),
{
    let (c, a, b) = choose|c: u32, a: int, b: int|
        {
            &&& p.index == c as usize
            &&& #[trigger] is_block(gs, c, a, b)
            &&& snaps_to(gs, i, c)
            &&& p.x == prefix_x(gs, if block_rtl(gs, false, c, a, b) { a } else { b })
            &&& p.y == prefix_y(gs, if block_rtl(gs, false, c, a, b) { a } else { b })
        };
    lemma_ltr_block_not_rtl(gs, c, a, b);
    assert(p.x == prefix_x(gs, b));
    lemma_prefix_x_monotone(gs, 0, b);
    let n = gs.len() as int;
    if b == n {
        assert(p.x as int >= prefix_axis(gs, false, n));
        assert(gs[n - 1].cluster == c);
        assert(r == p.index);
    } else {
        lemma_prefix_x_monotone(gs, b + 1, n);
        assert(prefix_x(gs, b + 1) == prefix_x(gs, b) + gs[b].x_advance);
        assert((p.x as int) < prefix_axis(gs, false, n));
        let j = choose|j: int|
            0 <= j < gs.len() && (#[trigger] prefix_axis(gs, false, j)) <= (p.x as int)
                < prefix_axis(gs, false, j) + axis_advance(gs[j], false) && r == gs[j].cluster
                as usize;
        assert(j == b) by {
            if j < b {
                lemma_prefix_x_monotone(gs, j + 1, b);
                assert(prefix_x(gs, j + 1) == prefix_x(gs, j) + gs[j].x_advance);
            }
            if j > b {
                lemma_prefix_x_monotone(gs, b + 1, j);
            }
        }
        assert(r == gs[b].cluster as usize);
        assert(gs[b - 1].cluster == c);
        assert(gs[b - 1].cluster <= gs[b].cluster);
        assert(c < gs[b].cluster);
        assert(forall|t: int| 0 <= t < gs.len() ==> !(p.index < (#[trigger] gs[t]).cluster < r))
            by {
            assert forall|t: int| 0 <= t < gs.len() implies !(p.index < (#[trigger] gs[t]).cluster
                < r) by {
                if t < b {
                    assert(gs[t].cluster <= gs[b - 1].cluster);
                } else {
                    assert(gs[b].cluster <= gs[t].cluster);
                }
            }
        }
    }
}

/// Round trip on a right-to-left line with positive advances: feeding the
/// position returned for index `i` back into the position-to-index query
/// returns exactly the cluster `i` snapped to — the cursor of a
/// right-to-left character sits at its cluster's left edge, inside its
/// own span.
pub proof fn lemma_round_trip_rtl(gs: Seq<Glyph>, i: int, p: Position, r: usize)
    requires
        glyphs_metrics_wf(gs),
        gs.len() > 0,
        rtl_visual_order(gs),
        forall|j: int| 0 <= j < gs.len() ==> (#[trigger] gs[j]).x_advance > 0,
        index_to_position_post(gs, true, i, p),
        position_to_index_post(gs, false, p.x as int, p.y as int, r),
    ensures
        r == p.index,
{
    let (c, a, b) = choose|c: u32, a: int, b: int|
        {
            &&& p.index == c as usize
            &&& #[trigger] is_block(gs, c, a, b)
            &&& snaps_to(gs, i, c)
            &&& p.x == prefix_x(gs, if block_rtl(gs, true, c, a, b) { a } else { b })
            &&& p.y == prefix_y(gs, if block_rtl(gs, true, c, a, b) { a } else { b })
        };
    lemma_rtl_block_rtl(gs, c, a, b);
    assert(p.x == prefix_x(gs, a));
    lemma_prefix_x_monotone(gs, 0, a);
    let n = gs.len() as int;
    lemma_prefix_x_monotone(gs, a + 1, n);
    assert(prefix_x(gs, a + 1) == prefix_x(gs, a) + gs[a].x_advance);
    assert((p.x as int) < prefix_axis(gs, false, n));
    let j = choose|j: int|
        0 <= j < gs.len() && (#[trigger] prefix_axis(gs, false, j)) <= (p.x as int) < prefix_axis(
            gs,
            false,
            j,
        ) + axis_advance(gs[j], false) && r == gs[j].cluster as usize;
    assert(j == a) by {
        if j < a {
            lemma_prefix_x_monotone(gs, j + 1, a);
            assert(prefix_x(gs, j + 1) == prefix_x(gs, j) + gs[j].x_advance);
        }
        if j > a {
            lemma_prefix_x_monotone(gs, a + 1, j);
        }
    }
    assert(r == gs[a].cluster as usize);
}

} // verus!
