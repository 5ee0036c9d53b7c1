//! Grapheme cluster boundaries of the text of a `RopeSlice`, in char indices,
//! and an iterator over the grapheme clusters of a `RopeSlice`.
use vstd::prelude::*;
use ropey::RopeSlice;
use crate::rope::ropey_api::{
    slice_byte_to_char, slice_char_to_byte, slice_len_chars, slice_slice, slice_text,
    slice_to_string,
};
use crate::segmentation::{
    clusters, cursor_is_boundary, cursor_next_boundary, cursor_prev_boundary, grapheme_boundary,
    grapheme_boundary_char, is_cluster_edge, is_forward_step, is_forward_walk,
    is_next_boundary_char, is_prev_boundary_char, lemma_clusters_flatten,
    lemma_forward_walk_within,
};
use crate::utf8::{
    char_index_of_byte, is_char_boundary, lemma_byte_offset_is_boundary, lemma_byte_offset_strict,
    lemma_char_boundary_index,
};

verus! {

/// Char index `k` of `t` is an extended grapheme cluster boundary.
pub open spec fn is_grapheme_boundary_char(t: Seq<char>, k: int) -> bool {
    grapheme_boundary_char(t, k, true)
}

/// `p` is the extended grapheme boundary that precedes char index `k` of `t`.
pub open spec fn is_prev_grapheme_boundary(t: Seq<char>, k: int, p: int) -> bool {
    is_prev_boundary_char(t, k, p, true)
}

/// `n` is the extended grapheme boundary that follows char index `k` of `t`.
pub open spec fn is_next_grapheme_boundary(t: Seq<char>, k: int, n: int) -> bool {
    is_next_boundary_char(t, k, n, true)
}

/// Finds the previous grapheme boundary before the given char position.
///
/// Returns `None` when the position lies past the end of the slice, and
/// `Some(0)` at the start of the slice.
pub fn prev_grapheme_boundary(slice: &RopeSlice, char_idx: usize) -> (r: Option<usize>)
    ensures
        char_idx > slice_text(*slice).len() ==> r is None,
        char_idx <= slice_text(*slice).len() ==> (r matches Some(p)
            && is_prev_grapheme_boundary(slice_text(*slice), char_idx as int, p as int)),
{
    let ghost t = slice_text(*slice);
    // Bounds check
    if char_idx > slice_len_chars(slice) {
        return None;
    }
    // We work with bytes for this, so convert.
    let byte_idx = slice_char_to_byte(slice, char_idx);
    let text = slice_to_string(slice);
    proof {
        lemma_byte_offset_is_boundary(t, char_idx as int);
    }
    match cursor_prev_boundary(text.as_str(), byte_idx, true) {
        Ok(None) => {
            proof {
                if char_idx > 0 {
                    lemma_byte_offset_strict(t, 0, char_idx as int);
                }
            }
            Some(0)
        },
        Ok(Some(n)) => {
            proof {
                lemma_char_boundary_index(t, n as int);
                lemma_byte_offset_is_boundary(t, t.len() as int);
            }
            let p = slice_byte_to_char(slice, n);
            proof {
                let k = char_idx as int;
                if p >= k {
                    crate::utf8::lemma_byte_offset_mono(t, k, p as int);
                }
                assert forall|j: int| p < j < k implies !grapheme_boundary_char(t, j, true) by {
                    lemma_byte_offset_strict(t, p as int, j);
                    lemma_byte_offset_strict(t, j, k);
                    lemma_byte_offset_is_boundary(t, j);
                }
            }
            Some(p)
        },
        Err(_) => None,
    }
}

/// Finds the next grapheme boundary after the given char position.
///
/// Returns `None` when the position lies past the end of the slice, and the
/// end of the slice when the position is the end.
pub fn next_grapheme_boundary(slice: &RopeSlice, char_idx: usize) -> (r: Option<usize>)
    ensures
        char_idx > slice_text(*slice).len() ==> r is None,
        char_idx <= slice_text(*slice).len() ==> (r matches Some(n)
            && is_next_grapheme_boundary(slice_text(*slice), char_idx as int, n as int)),
{
    let ghost t = slice_text(*slice);
    // Bounds check
    let len_chars = slice_len_chars(slice);
    if char_idx > len_chars {
        return None;
    }
    // We work with bytes for this, so convert.
    let byte_idx = slice_char_to_byte(slice, char_idx);
    let text = slice_to_string(slice);
    proof {
        lemma_byte_offset_is_boundary(t, char_idx as int);
        lemma_byte_offset_is_boundary(t, t.len() as int);
    }
    match cursor_next_boundary(text.as_str(), byte_idx, true) {
        Ok(None) => {
            proof {
                if char_idx < t.len() {
                    lemma_byte_offset_strict(t, char_idx as int, t.len() as int);
                }
            }
            Some(len_chars)
        },
        Ok(Some(n)) => {
            proof {
                lemma_char_boundary_index(t, n as int);
            }
            let m = slice_byte_to_char(slice, n);
            proof {
                let k = char_idx as int;
                if m <= k {
                    crate::utf8::lemma_byte_offset_mono(t, m as int, k);
                }
                assert forall|j: int| k < j < m implies !grapheme_boundary_char(t, j, true) by {
                    lemma_byte_offset_strict(t, k, j);
                    lemma_byte_offset_strict(t, j, m as int);
                    lemma_byte_offset_is_boundary(t, j);
                }
            }
            Some(m)
        },
        Err(_) => None,
    }
}

/// Returns whether the given char position is a grapheme boundary.
///
/// The start and the end of the slice are always boundaries.
pub fn is_grapheme_boundary(slice: &RopeSlice, char_idx: usize) -> (r: bool)
    requires
        char_idx <= slice_text(*slice).len(),
    ensures
        r == is_grapheme_boundary_char(slice_text(*slice), char_idx as int),
        char_idx == 0 || char_idx == slice_text(*slice).len() ==> r,
{
    let ghost t = slice_text(*slice);
    // We work with bytes for this, so convert.
    let byte_idx = slice_char_to_byte(slice, char_idx);
    let text = slice_to_string(slice);
    proof {
        lemma_byte_offset_is_boundary(t, char_idx as int);
    }
    match cursor_is_boundary(text.as_str(), byte_idx, true) {
        Ok(b) => b,
        Err(_) => false,
    }
}

/// A whole run of `RopeGraphemes`, from `new` to the first `None`: with `ps`
/// the positions it passes through (0 first) and `items` the chars of the
/// clusters it yields, each call of `next` that yields steps forward over one
/// cluster, and the last position is at the end of the slice. Then the
/// clusters are non-empty, each ends on a cluster edge, and concatenated they
/// are the slice's text.
pub proof fn lemma_grapheme_run(t: Seq<char>, ps: Seq<int>, items: Seq<Seq<char>>)
    requires
        ps.len() == items.len() + 1,
        ps[0] == 0,
        is_forward_walk(t, ps, true),
        forall|i: int| 0 <= i < items.len() ==> #[trigger] items[i] == t.subrange(ps[i], ps[i + 1]),
        ps[ps.len() - 1] >= t.len(),
    ensures
        ps[ps.len() - 1] == t.len(),
        forall|i: int|
            0 <= i < items.len() ==> #[trigger] items[i].len() > 0 && is_cluster_edge(
                t,
                ps[i + 1],
                true,
            ),
        items.flatten() == t,
{
    assert forall|i: int| 0 <= i < items.len() implies #[trigger] items[i].len() > 0
        && is_cluster_edge(t, ps[i + 1], true) by {
        assert(is_forward_step(t, ps, i, true));
        lemma_forward_walk_within(t, ps, true, i);
    }
    if ps.len() >= 2 {
        assert(is_forward_step(t, ps, ps.len() - 2, true));
    }
    assert(clusters(t, ps).flatten() == t.subrange(0, ps[ps.len() - 1])) by {
        assert forall|i: int| 0 <= i < ps.len() - 1 implies #[trigger] ps[i] <= ps[i + 1]
            <= t.len() by {
            assert(is_forward_step(t, ps, i, true));
        }
        lemma_clusters_flatten(t, ps);
    }
    assert(clusters(t, ps) =~= items);
    assert(t.subrange(0, t.len() as int) =~= t);
}

/// An iterator over the extended grapheme clusters of a `RopeSlice`.
pub struct RopeGraphemes<'a> {
    text: RopeSlice<'a>,
    contents: String,
    cursor: usize,
}

impl<'a> RopeGraphemes<'a> {
    /// The byte cursor sits on a char boundary of the slice's text, and past the
    /// start it sits on a grapheme boundary.
    #[verifier::type_invariant]
    spec fn cursor_on_boundary(&self) -> bool {
        &&& self.contents@ == slice_text(self.text)
        &&& is_char_boundary(self.contents@, self.cursor as int)
        &&& self.cursor == 0 || grapheme_boundary(self.contents@, self.cursor as int, true)
    }

    /// The chars of the slice being iterated over.
    pub closed spec fn text_chars(&self) -> Seq<char> {
        slice_text(self.text)
    }

    /// Char index of the start of the next grapheme to be yielded.
    pub closed spec fn position(&self) -> int {
        char_index_of_byte(self.contents@, self.cursor as int) as int
    }

    pub fn new<'b>(slice: &RopeSlice<'b>) -> (g: RopeGraphemes<'b>)
        ensures
            g.text_chars() == slice_text(*slice),
            g.position() == 0,
    {
        let contents = slice_to_string(slice);
        proof {
            lemma_byte_offset_is_boundary(contents@, 0);
        }
        RopeGraphemes { text: *slice, contents, cursor: 0 }
    }

    /// Yields the next grapheme cluster, or `None` once the whole slice is yielded.
    pub fn next(&mut self) -> (r: Option<RopeSlice<'a>>)
        ensures
            final(self).text_chars() == old(self).text_chars(),
            old(self).position() >= old(self).text_chars().len() ==> r is None
                && final(self).position() == old(self).position(),
            old(self).position() < old(self).text_chars().len() ==> (r matches Some(g)
                && is_next_grapheme_boundary(
                old(self).text_chars(),
                old(self).position(),
                final(self).position(),
            ) && slice_text(g) == old(self).text_chars().subrange(
                old(self).position(),
                final(self).position(),
            )),
    {
        proof {
            use_type_invariant(&*self);
        }
        let ghost t = self.contents@;
        let a = self.cursor;
        proof {
            lemma_char_boundary_index(t, a as int);
            lemma_byte_offset_is_boundary(t, t.len() as int);
        }
        match cursor_next_boundary(self.contents.as_str(), a, true) {
            Ok(Some(b)) => {
                proof {
                    lemma_char_boundary_index(t, b as int);
                }
                self.cursor = b;
                let a_char = slice_byte_to_char(&self.text, a);
                let b_char = slice_byte_to_char(&self.text, b);
                proof {
                    let ka = a_char as int;
                    let kb = b_char as int;
                    if kb <= ka {
                        crate::utf8::lemma_byte_offset_mono(t, kb, ka);
                    }
                    assert forall|j: int| ka < j < kb implies !grapheme_boundary_char(t, j, true) by {
                        lemma_byte_offset_strict(t, ka, j);
                        lemma_byte_offset_strict(t, j, kb);
                        lemma_byte_offset_is_boundary(t, j);
                    }
                }
                Some(slice_slice(&self.text, a_char, b_char))
            },
            _ => {
                proof {
                    let ka = char_index_of_byte(t, a as int) as int;
                    if ka < t.len() {
                        lemma_byte_offset_strict(t, ka, t.len() as int);
                    }
                }
                None
            },
        }
    }
}

} // verus!
