//! Grapheme cluster boundaries, as computed by `unicode_segmentation`.
//!
//! Each query places a fresh `GraphemeCursor` on a byte offset of a text and
//! hands it the whole text as a single chunk starting at byte 0, so the cursor
//! never needs to ask for more context.
use vstd::prelude::*;
use unicode_segmentation::{GraphemeCursor, GraphemeIncomplete};
use crate::utf8::{byte_offset, is_char_boundary, utf8_len};

verus! {

#[verifier::external_type_specification]
#[verifier::external_body]
pub struct ExGraphemeIncomplete(GraphemeIncomplete);

/// Whether byte index `offset` of the UTF-8 encoding of `text` is a grapheme
/// cluster boundary (extended clusters when `is_extended`, legacy ones
/// otherwise), as `GraphemeCursor::is_boundary` decides it for a cursor at
/// `offset` that is given the whole text.
pub uninterp spec fn grapheme_boundary(text: Seq<char>, offset: int, is_extended: bool) -> bool;

/// Char index `k` of `t` is a grapheme cluster boundary.
pub open spec fn grapheme_boundary_char(t: Seq<char>, k: int, is_extended: bool) -> bool {
    grapheme_boundary(t, byte_offset(t, k) as int, is_extended)
}

/// Char index `k` of `t` ends or starts a cluster: it is the start or the end
/// of `t`, or a grapheme cluster boundary.
pub open spec fn is_cluster_edge(t: Seq<char>, k: int, is_extended: bool) -> bool {
    k == 0 || k == t.len() || grapheme_boundary_char(t, k, is_extended)
}

/// `p` is the grapheme boundary that precedes char index `k` of `t`: the last
/// boundary before `k` (the start of `t` when there is none), or 0 when `k`
/// is 0.
pub open spec fn is_prev_boundary_char(t: Seq<char>, k: int, p: int, is_extended: bool) -> bool {
    &&& 0 <= p <= k
    &&& k == 0 ==> p == 0
    &&& k > 0 ==> {
        &&& p < k
        &&& is_cluster_edge(t, p, is_extended)
        &&& forall|j: int| p < j < k ==> !grapheme_boundary_char(t, j, is_extended)
    }
}

/// `n` is the grapheme boundary that follows char index `k` of `t`: the first
/// boundary after `k` (the end of `t` when there is none), or the end of `t`
/// when `k` is the end.
pub open spec fn is_next_boundary_char(t: Seq<char>, k: int, n: int, is_extended: bool) -> bool {
    &&& k <= n <= t.len()
    &&& k == t.len() ==> n == t.len()
    &&& k < t.len() ==> {
        &&& k < n
        &&& is_cluster_edge(t, n, is_extended)
        &&& forall|j: int| k < j < n ==> !grapheme_boundary_char(t, j, is_extended)
    }
}

/// Stepping back from a cluster edge to the boundary before it is the same
/// step as going forward from there to the next boundary.
pub proof fn lemma_prev_step_is_next_step(t: Seq<char>, k: int, p: int, is_extended: bool)
    requires
        0 < k <= t.len(),
        is_cluster_edge(t, k, is_extended),
        is_prev_boundary_char(t, k, p, is_extended),
    ensures
        is_next_boundary_char(t, p, k, is_extended),
{
}

/// Stepping forward from a cluster edge to the next boundary is the same step
/// as going back from there to the boundary before it.
pub proof fn lemma_next_step_is_prev_step(t: Seq<char>, k: int, n: int, is_extended: bool)
    requires
        0 <= k < t.len(),
        is_cluster_edge(t, k, is_extended),
        is_next_boundary_char(t, k, n, is_extended),
    ensures
        is_prev_boundary_char(t, n, k, is_extended),
{
}

/// From a cluster edge, stepping back to the previous boundary and then
/// forward to the next one returns to where it started.
pub proof fn lemma_next_of_prev_boundary(t: Seq<char>, k: int, p: int, n: int, is_extended: bool)
    requires
        0 < k <= t.len(),
        is_cluster_edge(t, k, is_extended),
        is_prev_boundary_char(t, k, p, is_extended),
        is_next_boundary_char(t, p, n, is_extended),
    ensures
        n == k,
{
    lemma_prev_step_is_next_step(t, k, p, is_extended);
    lemma_next_boundary_unique(t, p, n, k, is_extended);
}

/// From a cluster edge, stepping forward to the next boundary and then back to
/// the previous one returns to where it started.
pub proof fn lemma_prev_of_next_boundary(t: Seq<char>, k: int, n: int, p: int, is_extended: bool)
    requires
        0 <= k < t.len(),
        is_cluster_edge(t, k, is_extended),
        is_next_boundary_char(t, k, n, is_extended),
        is_prev_boundary_char(t, n, p, is_extended),
    ensures
        p == k,
{
    lemma_next_step_is_prev_step(t, k, n, is_extended);
    lemma_prev_boundary_unique(t, n, p, k, is_extended);
}

/// The boundary after a position is determined by the text and the position.
pub proof fn lemma_next_boundary_unique(t: Seq<char>, k: int, n1: int, n2: int, is_extended: bool)
    requires
        0 <= k,
        is_next_boundary_char(t, k, n1, is_extended),
        is_next_boundary_char(t, k, n2, is_extended),
    ensures
        n1 == n2,
{
    if k < t.len() {
        if n1 < n2 {
            assert(!grapheme_boundary_char(t, n1, is_extended));
        }
        if n2 < n1 {
            assert(!grapheme_boundary_char(t, n2, is_extended));
        }
    }
}

/// The boundary before a position is determined by the text and the position.
pub proof fn lemma_prev_boundary_unique(t: Seq<char>, k: int, p1: int, p2: int, is_extended: bool)
    requires
        k <= t.len(),
        is_prev_boundary_char(t, k, p1, is_extended),
        is_prev_boundary_char(t, k, p2, is_extended),
    ensures
        p1 == p2,
{
    if k > 0 {
        if p1 < p2 {
            assert(!grapheme_boundary_char(t, p2, is_extended));
        }
        if p2 < p1 {
            assert(!grapheme_boundary_char(t, p1, is_extended));
        }
    }
}

/// The boundary before a position and the boundary after it enclose it, with
/// no grapheme boundary strictly between them other than, possibly, the
/// position itself.
pub proof fn lemma_boundaries_enclose(t: Seq<char>, k: int, p: int, n: int, is_extended: bool)
    requires
        0 < k < t.len(),
        is_prev_boundary_char(t, k, p, is_extended),
        is_next_boundary_char(t, k, n, is_extended),
    ensures
        p < k < n,
        forall|j: int| p < j < n && j != k ==> !grapheme_boundary_char(t, j, is_extended),
{
}

/// Step `i` of `ps` goes forward over one cluster of `t`: offset `i` lies
/// before the end of `t`, and offset `i + 1` is the boundary that follows it.
pub open spec fn is_forward_step(t: Seq<char>, ps: Seq<int>, i: int, is_extended: bool) -> bool {
    ps[i] < t.len() && is_next_boundary_char(t, ps[i], ps[i + 1], is_extended)
}

/// Step `i` of `ps` goes back over one cluster of `t`: offset `i` lies after
/// the start of `t`, and offset `i + 1` is the boundary that precedes it.
pub open spec fn is_backward_step(t: Seq<char>, ps: Seq<int>, i: int, is_extended: bool) -> bool {
    0 < ps[i] && is_prev_boundary_char(t, ps[i], ps[i + 1], is_extended)
}

/// `ps` walks forward over `t` cluster by cluster.
pub open spec fn is_forward_walk(t: Seq<char>, ps: Seq<int>, is_extended: bool) -> bool {
    forall|i: int| 0 <= i < ps.len() - 1 ==> #[trigger] is_forward_step(t, ps, i, is_extended)
}

/// `ps` walks backward over `t` cluster by cluster.
pub open spec fn is_backward_walk(t: Seq<char>, ps: Seq<int>, is_extended: bool) -> bool {
    forall|i: int| 0 <= i < ps.len() - 1 ==> #[trigger] is_backward_step(t, ps, i, is_extended)
}

/// The chars of `t` between successive offsets of `ps`.
pub open spec fn clusters(t: Seq<char>, ps: Seq<int>) -> Seq<Seq<char>> {
    if ps.len() == 0 {
        Seq::empty()
    } else {
        Seq::new((ps.len() - 1) as nat, |i: int| t.subrange(ps[i], ps[i + 1]))
    }
}

/// The chars of `t` between successive offsets of `ps`, taken from the later
/// offset back to the earlier one.
pub open spec fn back_clusters(t: Seq<char>, ps: Seq<int>) -> Seq<Seq<char>> {
    if ps.len() == 0 {
        Seq::empty()
    } else {
        Seq::new((ps.len() - 1) as nat, |i: int| t.subrange(ps[i + 1], ps[i]))
    }
}

/// Every offset of a forward walk that starts within `t` lies within `t`.
pub proof fn lemma_forward_walk_within(t: Seq<char>, ps: Seq<int>, is_extended: bool, i: int)
    requires
        ps.len() >= 1,
        0 <= ps[0] <= t.len(),
        is_forward_walk(t, ps, is_extended),
        0 <= i < ps.len(),
    ensures
        0 <= ps[i] <= t.len(),
    decreases i,
{
    if i > 0 {
        lemma_forward_walk_within(t, ps, is_extended, i - 1);
        assert(is_forward_step(t, ps, i - 1, is_extended));
    }
}

/// Two forward walks from the same offset to the end of `t` are the same walk.
pub proof fn lemma_forward_walks_agree(t: Seq<char>, xs: Seq<int>, ys: Seq<int>, is_extended: bool)
    requires
        xs.len() >= 1,
        ys.len() >= 1,
        0 <= xs[0] == ys[0],
        is_forward_walk(t, xs, is_extended),
        is_forward_walk(t, ys, is_extended),
        xs[xs.len() - 1] == t.len(),
        ys[ys.len() - 1] == t.len(),
    ensures
        xs == ys,
    decreases xs.len(),
{
    if xs.len() == 1 {
        if ys.len() > 1 {
            assert(is_forward_step(t, ys, 0, is_extended));
        }
        assert(xs =~= ys);
    } else {
        assert(is_forward_step(t, xs, 0, is_extended));
        if ys.len() == 1 {
            assert(false);
        } else {
            assert(is_forward_step(t, ys, 0, is_extended));
            lemma_next_boundary_unique(t, xs[0], xs[1], ys[1], is_extended);
            let xr = xs.drop_first();
            let yr = ys.drop_first();
            assert forall|i: int| 0 <= i < xr.len() - 1 implies #[trigger] is_forward_step(
                t,
                xr,
                i,
                is_extended,
            ) by {
                assert(is_forward_step(t, xs, i + 1, is_extended));
            }
            assert forall|i: int| 0 <= i < yr.len() - 1 implies #[trigger] is_forward_step(
                t,
                yr,
                i,
                is_extended,
            ) by {
                assert(is_forward_step(t, ys, i + 1, is_extended));
            }
            lemma_forward_walks_agree(t, xr, yr, is_extended);
            assert(xs =~= ys) by {
                assert forall|i: int| 0 <= i < xs.len() implies xs[i] == ys[i] by {
                    if i > 0 {
                        assert(xs[i] == xr[i - 1]);
                        assert(ys[i] == yr[i - 1]);
                    }
                }
            }
        }
    }
}

/// Every offset of a backward walk from the end of `t` lies within `t`, and
/// every one after the first is a cluster edge.
proof fn lemma_backward_walk_edges(t: Seq<char>, bs: Seq<int>, is_extended: bool, i: int)
    requires
        bs.len() >= 1,
        bs[0] == t.len(),
        is_backward_walk(t, bs, is_extended),
        0 <= i < bs.len(),
    ensures
        0 <= bs[i] <= t.len(),
        is_cluster_edge(t, bs[i], is_extended),
    decreases i,
{
    if i > 0 {
        lemma_backward_walk_edges(t, bs, is_extended, i - 1);
        assert(is_backward_step(t, bs, i - 1, is_extended));
    }
}

/// A backward walk from the end of `t`, read in reverse, is a forward walk.
pub proof fn lemma_backward_walk_reversed(t: Seq<char>, bs: Seq<int>, is_extended: bool)
    requires
        bs.len() >= 1,
        bs[0] == t.len(),
        is_backward_walk(t, bs, is_extended),
    ensures
        is_forward_walk(t, bs.reverse(), is_extended),
        back_clusters(t, bs).reverse() == clusters(t, bs.reverse()),
{
    let n = bs.len() as int;
    let rs = bs.reverse();
    assert forall|j: int| 0 <= j < rs.len() - 1 implies #[trigger] is_forward_step(
        t,
        rs,
        j,
        is_extended,
    ) by {
        let i = n - 2 - j;
        assert(rs[j] == bs[i + 1]);
        assert(rs[j + 1] == bs[i]);
        assert(is_backward_step(t, bs, i, is_extended));
        lemma_backward_walk_edges(t, bs, is_extended, i);
        lemma_prev_step_is_next_step(t, bs[i], bs[i + 1], is_extended);
    }
    assert(back_clusters(t, bs).reverse() =~= clusters(t, rs));
}

/// Joining a forward walk that ends where another starts gives a forward walk,
/// whose clusters are those of the first followed by those of the second.
pub proof fn lemma_forward_walks_join(t: Seq<char>, xs: Seq<int>, ys: Seq<int>, is_extended: bool)
    requires
        xs.len() >= 1,
        ys.len() >= 1,
        xs[xs.len() - 1] == ys[0],
        is_forward_walk(t, xs, is_extended),
        is_forward_walk(t, ys, is_extended),
    ensures
        is_forward_walk(t, xs + ys.drop_first(), is_extended),
        clusters(t, xs + ys.drop_first()) == clusters(t, xs) + clusters(t, ys),
{
    let zs = xs + ys.drop_first();
    let m = xs.len() as int;
    assert forall|i: int| 0 <= i < zs.len() - 1 implies #[trigger] is_forward_step(
        t,
        zs,
        i,
        is_extended,
    ) by {
        if i < m - 1 {
            assert(is_forward_step(t, xs, i, is_extended));
        } else {
            assert(zs[i] == ys[i - m + 1]);
            assert(zs[i + 1] == ys[i - m + 2]);
            assert(is_forward_step(t, ys, i - m + 1, is_extended));
        }
    }
    assert forall|i: int| 0 <= i < zs.len() - 1 implies #[trigger] clusters(t, zs)[i] == (clusters(
        t,
        xs,
    ) + clusters(t, ys))[i] by {
        if i >= m - 1 {
            assert(zs[i] == ys[i - m + 1]);
            assert(zs[i + 1] == ys[i - m + 2]);
        }
    }
    assert(clusters(t, zs) =~= clusters(t, xs) + clusters(t, ys));
}

/// The clusters of rising offsets, concatenated, are the chars of `t` from the
/// first offset to the last.
pub proof fn lemma_clusters_flatten(t: Seq<char>, ps: Seq<int>)
    requires
        ps.len() >= 1,
        0 <= ps[0] <= t.len(),
        forall|i: int| 0 <= i < ps.len() - 1 ==> #[trigger] ps[i] <= ps[i + 1] <= t.len(),
    ensures
        ps[0] <= ps[ps.len() - 1] <= t.len(),
        clusters(t, ps).flatten() == t.subrange(ps[0], ps[ps.len() - 1]),
    decreases ps.len(),
{
    if ps.len() == 1 {
        assert(clusters(t, ps) =~= Seq::<Seq<char>>::empty());
        assert(t.subrange(ps[0], ps[0]) =~= Seq::<char>::empty());
    } else {
        let rest = ps.drop_first();
        assert forall|i: int| 0 <= i < rest.len() - 1 implies #[trigger] rest[i] <= rest[i + 1]
            <= t.len() by {
            assert(rest[i] == ps[i + 1]);
            assert(ps[i + 1] <= ps[i + 2]);
        }
        assert(ps[0] <= ps[1]);
        lemma_clusters_flatten(t, rest);
        assert(clusters(t, ps).drop_first() =~= clusters(t, rest));
        assert(clusters(t, ps).first() == t.subrange(ps[0], ps[1]));
        assert(t.subrange(ps[0], ps[1]) + t.subrange(ps[1], ps[ps.len() - 1]) =~= t.subrange(
            ps[0],
            ps[ps.len() - 1],
        ));
    }
}

/// Calls `GraphemeCursor::is_boundary` on a cursor created by
/// `GraphemeCursor::new(offset, text.len(), is_extended)`, with `text` as the
/// chunk and 0 as the chunk's start.
///
/// Claimed of the outside code: the answer is `Ok`, and is the named
/// `grapheme_boundary`; the start and the end of the text are boundaries
/// (`new` puts the cursor in its break state there). The crate documents that
/// `PreContext` needs a nonzero chunk start, and the chunk here contains the
/// cursor, so no `GraphemeIncomplete` comes back. The offset must be a char
/// boundary: the crate slices the chunk at it.
#[verifier::external_body]
pub(crate) fn cursor_is_boundary(text: &str, offset: usize, is_extended: bool) -> (r: Result<bool, GraphemeIncomplete>)
    requires
        is_char_boundary(text@, offset as int),
    ensures
        r is Ok,
        r->Ok_0 == grapheme_boundary(text@, offset as int, is_extended),
        offset == 0 ==> r->Ok_0,
        offset == utf8_len(text@) ==> r->Ok_0,
{
    GraphemeCursor::new(offset, text.len(), is_extended).is_boundary(text, 0)
}

/// Calls `GraphemeCursor::next_boundary` on a cursor created by
/// `GraphemeCursor::new(offset, text.len(), is_extended)`, with `text` as the
/// chunk and 0 as the chunk's start.
///
/// Claimed of the outside code, as its documentation states it ("find the
/// next boundary after the current cursor position"; `NextChunk` only when the
/// chunk ends before the text does, `PreContext` only for a nonzero chunk
/// start): the answer is `Ok`; it is `Ok(None)` exactly when the cursor is at
/// the end of the text; otherwise it is the first char boundary after `offset`
/// that `grapheme_boundary` holds of.
#[verifier::external_body]
pub(crate) fn cursor_next_boundary(text: &str, offset: usize, is_extended: bool) -> (r: Result<Option<usize>, GraphemeIncomplete>)
    requires
        is_char_boundary(text@, offset as int),
    ensures
        r is Ok,
        r matches Ok(None) <==> offset == utf8_len(text@),
        r matches Ok(Some(n)) ==> {
            &&& offset < n <= utf8_len(text@)
            &&& is_char_boundary(text@, n as int)
            &&& grapheme_boundary(text@, n as int, is_extended)
            &&& forall|j: int|
                offset < j < n && is_char_boundary(text@, j) ==> !grapheme_boundary(
                    text@,
                    j,
                    is_extended,
                )
        },
{
    GraphemeCursor::new(offset, text.len(), is_extended).next_boundary(text, 0)
}

/// Calls `GraphemeCursor::prev_boundary` on a cursor created by
/// `GraphemeCursor::new(offset, text.len(), is_extended)`, with `text` as the
/// chunk and 0 as the chunk's start.
///
/// Claimed of the outside code, as its documentation states it ("find the
/// previous boundary"; `PrevChunk` and `PreContext` only for a nonzero chunk
/// start): the answer is `Ok`; it is `Ok(None)` exactly when the cursor is at
/// the start of the text; otherwise it is the last char boundary before
/// `offset` that `grapheme_boundary` holds of.
#[verifier::external_body]
pub(crate) fn cursor_prev_boundary(text: &str, offset: usize, is_extended: bool) -> (r: Result<Option<usize>, GraphemeIncomplete>)
    requires
        is_char_boundary(text@, offset as int),
    ensures
        r is Ok,
        r matches Ok(None) <==> offset == 0,
        r matches Ok(Some(n)) ==> {
            &&& n < offset
            &&& is_char_boundary(text@, n as int)
            &&& grapheme_boundary(text@, n as int, is_extended)
            &&& forall|j: int|
                n < j < offset && is_char_boundary(text@, j) ==> !grapheme_boundary(
                    text@,
                    j,
                    is_extended,
                )
        },
{
    GraphemeCursor::new(offset, text.len(), is_extended).prev_boundary(text, 0)
}

} // verus!
