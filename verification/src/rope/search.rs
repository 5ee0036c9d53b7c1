//! Plain-text search over the chars of a `RopeSlice`, and search-and-replace
//! over a `Rope`.
//!
//! Matches are found left to right and never overlap: once a match is found,
//! the search resumes right after it.
use vstd::prelude::*;
use ropey::iter::Chars;
use ropey::{Rope, RopeSlice};
use crate::rope::ropey_api::{
    chars_next, chars_remaining, rope_insert, rope_len_chars, rope_remove, rope_slice, rope_text,
    slice_chars, slice_len_chars, slice_text,
};

verus! {

/// `p` occurs in `t` starting at char index `a`.
pub open spec fn matches_at(t: Seq<char>, p: Seq<char>, a: int) -> bool {
    0 <= a && a + p.len() <= t.len() && t.subrange(a, a + p.len()) == p
}

/// The first char index at or after `h` at which `p` occurs in `t`.
pub open spec fn first_match_from(t: Seq<char>, p: Seq<char>, h: int) -> Option<int>
    decreases t.len() - h,
{
    if h < 0 || h + p.len() > t.len() {
        None
    } else if matches_at(t, p, h) {
        Some(h)
    } else if h >= t.len() {
        None
    } else {
        first_match_from(t, p, h + 1)
    }
}

/// The chars of `t` from `h` on, with each occurrence of `p` (found left to
/// right, without overlap) replaced by `r`.
pub open spec fn replaced_from(t: Seq<char>, p: Seq<char>, r: Seq<char>, h: int) -> Seq<char>
    decreases t.len() - h,
{
    if p.len() == 0 || h < 0 || h > t.len() {
        t.subrange(h, t.len() as int)
    } else {
        match first_match_from(t, p, h) {
            None => t.subrange(h, t.len() as int),
            Some(a) => {
                proof {
                    lemma_first_match_from(t, p, h);
                }
                t.subrange(h, a) + r + replaced_from(t, p, r, a + p.len())
            },
        }
    }
}

/// `t` with each occurrence of `p` (found left to right, without overlap)
/// replaced by `r`.
pub open spec fn replace_all(t: Seq<char>, p: Seq<char>, r: Seq<char>) -> Seq<char> {
    replaced_from(t, p, r, 0)
}

/// The `k` chars of `t` that end at `end` are the first `k` chars of `p`.
pub open spec fn is_partial_match(t: Seq<char>, p: Seq<char>, end: int, k: int) -> bool {
    0 <= k <= end <= t.len() && k <= p.len() && t.subrange(end - k, end) == p.take(k)
}

/// `first_match_from` finds an occurrence, the first one at or after `h`.
pub proof fn lemma_first_match_from(t: Seq<char>, p: Seq<char>, h: int)
    requires
        h >= 0,
    ensures
        first_match_from(t, p, h) matches Some(a) ==> h <= a && matches_at(t, p, a) && forall|
            b: int,
        | h <= b < a ==> !matches_at(t, p, b),
        first_match_from(t, p, h) is None ==> forall|b: int| h <= b ==> !matches_at(t, p, b),
    decreases t.len() - h,
{
    if h + p.len() > t.len() {
    } else if matches_at(t, p, h) {
    } else if h >= t.len() {
        assert forall|b: int| h <= b implies !matches_at(t, p, b) by {
            if b > h {
            }
        }
    } else {
        lemma_first_match_from(t, p, h + 1);
    }
}

/// Replacing every occurrence of a pattern by the pattern itself leaves the
/// text as it was.
pub proof fn lemma_replace_by_itself(t: Seq<char>, p: Seq<char>)
    ensures
        replace_all(t, p, p) == t,
{
    lemma_replaced_by_itself_from(t, p, 0);
    assert(t.subrange(0, t.len() as int) =~= t);
}

proof fn lemma_replaced_by_itself_from(t: Seq<char>, p: Seq<char>, h: int)
    requires
        0 <= h <= t.len(),
    ensures
        replaced_from(t, p, p, h) == t.subrange(h, t.len() as int),
    decreases t.len() - h,
{
    if p.len() > 0 {
        lemma_first_match_from(t, p, h);
        match first_match_from(t, p, h) {
            None => {},
            Some(a) => {
                lemma_replaced_by_itself_from(t, p, a + p.len());
                assert(t.subrange(h, a) + p + t.subrange(a + p.len(), t.len() as int)
                    =~= t.subrange(h, t.len() as int));
            },
        }
    }
}

/// With no occurrence of the pattern, replacing changes nothing.
pub proof fn lemma_replace_without_match(t: Seq<char>, p: Seq<char>, r: Seq<char>)
    requires
        forall|a: int| !matches_at(t, p, a),
    ensures
        replace_all(t, p, r) == t,
{
    lemma_first_match_none(t, p, 0);
    assert(t.subrange(0, t.len() as int) =~= t);
}

/// The first occurrence at or after `h` is determined by the occurrences alone.
pub proof fn lemma_first_match_is(t: Seq<char>, p: Seq<char>, h: int, a: int)
    requires
        0 <= h <= a,
        matches_at(t, p, a),
        forall|b: int| h <= b < a ==> !matches_at(t, p, b),
    ensures
        first_match_from(t, p, h) == Some(a),
{
    lemma_first_match_from(t, p, h);
}

/// No occurrence at or after `h` means no match is found from `h`.
pub proof fn lemma_first_match_none(t: Seq<char>, p: Seq<char>, h: int)
    requires
        0 <= h,
        forall|b: int| h <= b ==> !matches_at(t, p, b),
    ensures
        first_match_from(t, p, h) is None,
{
    lemma_first_match_from(t, p, h);
}

/// Occurrences in a suffix of `t` are occurrences in `t`, shifted.
pub proof fn lemma_matches_at_suffix(t: Seq<char>, p: Seq<char>, o: int, x: int)
    requires
        0 <= o <= t.len(),
        0 <= x,
    ensures
        matches_at(t.subrange(o, t.len() as int), p, x) == matches_at(t, p, o + x),
{
    let s = t.subrange(o, t.len() as int);
    if x + p.len() <= s.len() {
        assert(s.subrange(x, x + p.len()) =~= t.subrange(o + x, o + x + p.len()));
    }
}

/// Searching a suffix of `t` finds the occurrences of `t`, shifted.
pub proof fn lemma_first_match_suffix(t: Seq<char>, p: Seq<char>, o: int, x: int)
    requires
        0 <= o <= t.len(),
        0 <= x,
    ensures
        first_match_from(t.subrange(o, t.len() as int), p, x) == match first_match_from(
            t,
            p,
            o + x,
        ) {
            Some(a) => Some(a - o),
            None => None,
        },
{
    let s = t.subrange(o, t.len() as int);
    lemma_first_match_from(t, p, o + x);
    assert forall|b: int| 0 <= b implies matches_at(s, p, b) == matches_at(t, p, o + b) by {
        lemma_matches_at_suffix(t, p, o, b);
    }
    match first_match_from(t, p, o + x) {
        Some(a) => {
            lemma_first_match_is(s, p, x, a - o);
        },
        None => {
            lemma_first_match_none(s, p, x);
        },
    }
}

/// Replacing in a suffix of `t` gives the same chars as replacing in `t` from the same place.
pub proof fn lemma_replaced_suffix(t: Seq<char>, p: Seq<char>, r: Seq<char>, o: int, x: int)
    requires
        0 <= o <= t.len(),
        0 <= x <= t.len() - o,
        p.len() > 0,
    ensures
        replaced_from(t.subrange(o, t.len() as int), p, r, x) == replaced_from(t, p, r, o + x),
    decreases t.len() - o - x,
{
    let s = t.subrange(o, t.len() as int);
    lemma_first_match_suffix(t, p, o, x);
    lemma_first_match_from(t, p, o + x);
    match first_match_from(t, p, o + x) {
        None => {
            assert(s.subrange(x, s.len() as int) =~= t.subrange(o + x, t.len() as int));
        },
        Some(a) => {
            assert(s.subrange(x, a - o) =~= t.subrange(o + x, a));
            lemma_replaced_suffix(t, p, r, o, a - o + p.len());
        },
    }
}

/// How long a replaced text gets: each occurrence of `p` in `t` takes at
/// least `p.len()` chars of `t`, so at most `t.len() / p.len()` of them are
/// replaced, each adding `r.len()` chars; and with a replacement no longer
/// than the pattern the text does not grow.
pub proof fn lemma_replace_all_len(t: Seq<char>, p: Seq<char>, r: Seq<char>)
    requires
        p.len() > 0,
    ensures
        replace_all(t, p, r).len() <= t.len() + (t.len() / p.len()) * r.len(),
        r.len() <= p.len() ==> replace_all(t, p, r).len() <= t.len(),
{
    lemma_replaced_from_len(t, p, r, 0);
}

proof fn lemma_replaced_from_len(t: Seq<char>, p: Seq<char>, r: Seq<char>, h: int)
    requires
        p.len() > 0,
        0 <= h <= t.len(),
    ensures
        replaced_from(t, p, r, h).len() <= (t.len() - h) + ((t.len() - h) / p.len() as int)
            * r.len(),
        r.len() <= p.len() ==> replaced_from(t, p, r, h).len() <= t.len() - h,
    decreases t.len() - h,
{
    let m = p.len() as int;
    let rl = r.len() as int;
    lemma_first_match_from(t, p, h);
    let y = t.len() - h;
    assert(0 <= y / m) by {
        vstd::arithmetic::div_mod::lemma_div_is_ordered(0, y, m);
        vstd::arithmetic::div_mod::lemma_div_basics(m);
    }
    assert(0 <= (y / m) * rl) by (nonlinear_arith)
        requires
            0 <= y / m,
            0 <= rl,
    ;
    match first_match_from(t, p, h) {
        None => {},
        Some(a) => {
            lemma_replaced_from_len(t, p, r, a + m);
            let x = t.len() - a - m;
            vstd::arithmetic::div_mod::lemma_div_plus_one(x, m);
            vstd::arithmetic::div_mod::lemma_div_is_ordered(m + x, y, m);
            let q = x / m;
            vstd::arithmetic::mul::lemma_mul_inequality(q + 1, y / m, rl);
            assert((q + 1) * rl == q * rl + rl) by (nonlinear_arith);
        },
    }
}

/// Extending a partial match by one more matching char.
pub proof fn lemma_partial_extend(t: Seq<char>, p: Seq<char>, end: int, k: int)
    requires
        is_partial_match(t, p, end, k),
        end < t.len(),
        k < p.len(),
        t[end] == p[k],
    ensures
        is_partial_match(t, p, end + 1, k + 1),
{
    let s1 = t.subrange(end - k, end + 1);
    let s0 = t.subrange(end - k, end);
    let q1 = p.take(k + 1);
    let q0 = p.take(k);
    assert forall|i: int| 0 <= i < k + 1 implies s1[i] == q1[i] by {
        if i < k {
            assert(s0[i] == q0[i]);
        }
    }
    assert(s1 =~= q1);
}

/// A partial match ending one char later is a partial match plus that char.
pub proof fn lemma_partial_shrink(t: Seq<char>, p: Seq<char>, end: int, k: int)
    requires
        is_partial_match(t, p, end + 1, k + 1),
        k >= 0,
    ensures
        is_partial_match(t, p, end, k),
        t[end] == p[k],
{
    let s1 = t.subrange(end - k, end + 1);
    let s0 = t.subrange(end - k, end);
    let q1 = p.take(k + 1);
    let q0 = p.take(k);
    assert forall|i: int| 0 <= i < k implies s0[i] == q0[i] by {
        assert(s1[i] == q1[i]);
    }
    assert(s0 =~= q0);
    assert(s1[k] == q1[k]);
}

/// An occurrence is a full-length partial match.
pub proof fn lemma_matches_at_partial(t: Seq<char>, p: Seq<char>, a: int)
    requires
        0 <= a,
    ensures
        matches_at(t, p, a) <==> (a + p.len() <= t.len() && is_partial_match(
            t,
            p,
            a + p.len(),
            p.len() as int,
        )),
{
    assert(p.take(p.len() as int) =~= p);
}

/// How many matches are collected before they are replaced.
pub const BATCH_SIZE: usize = 256;

/// The end of the match before match `j` of a batch, or 0 for the first match.
pub open spec fn end_before(ms: Seq<(usize, usize)>, j: int) -> int {
    if j <= 0 {
        0
    } else {
        ms[j - 1].1 as int
    }
}

/// `ms` are the successive matches of `p` in `t`, searched from the start.
pub open spec fn is_match_chain(t: Seq<char>, p: Seq<char>, ms: Seq<(usize, usize)>) -> bool {
    forall|j: int|
        0 <= j < ms.len() ==> first_match_from(t, p, end_before(ms, j)) == Some(
            #[trigger] ms[j].0 as int,
        ) && ms[j].1 == ms[j].0 + p.len()
}

/// Each result of `SearchIter::next` extends the chain of the results before
/// it. The iterator starts at resume index 0, the end before an empty chain;
/// a result found from the end of the last link of the chain is its next
/// link, and the resume index moves to the end of that link.
pub proof fn lemma_match_chain_extends(
    t: Seq<char>,
    p: Seq<char>,
    ms: Seq<(usize, usize)>,
    mr: (usize, usize),
)
    requires
        is_match_chain(t, p, ms),
        first_match_from(t, p, end_before(ms, ms.len() as int)) == Some(mr.0 as int),
        mr.1 == mr.0 + p.len(),
    ensures
        is_match_chain(t, p, ms.push(mr)),
        end_before(ms.push(mr), ms.len() + 1int) == mr.1,
{
    let ms2 = ms.push(mr);
    assert forall|j: int| 0 <= j < ms2.len() implies first_match_from(t, p, end_before(ms2, j))
        == Some(#[trigger] ms2[j].0 as int) && ms2[j].1 == ms2[j].0 + p.len() by {
        if j < ms.len() {
            assert(ms2[j] == ms[j]);
            assert(end_before(ms2, j) == end_before(ms, j));
        }
    }
}

/// The successive results of `SearchIter::next` are the leftmost
/// non-overlapping occurrences of the pattern: each is an occurrence that
/// starts at or after the end of the one before, no occurrence starting
/// between that end and its start is passed over, and they follow one another
/// without overlap.
pub proof fn lemma_match_chain_leftmost(t: Seq<char>, p: Seq<char>, ms: Seq<(usize, usize)>)
    requires
        is_match_chain(t, p, ms),
    ensures
        forall|j: int|
            0 <= j < ms.len() ==> matches_at(t, p, #[trigger] ms[j].0 as int) && end_before(ms, j)
                <= ms[j].0 && ms[j].1 == ms[j].0 + p.len(),
        forall|j: int, a: int|
            0 <= j < ms.len() && end_before(ms, j) <= a < #[trigger] ms[j].0 ==> !#[trigger] matches_at(
                t,
                p,
                a,
            ),
        forall|i: int, j: int| 0 <= i < j < ms.len() ==> #[trigger] ms[i].1 <= #[trigger] ms[j].0,
{
    assert forall|j: int| 0 <= j < ms.len() implies end_before(ms, j) >= 0 by {
        if j > 0 {
            assert(ms[j - 1].1 >= 0);
        }
    }
    assert forall|j: int| 0 <= j < ms.len() implies matches_at(t, p, #[trigger] ms[j].0 as int)
        && end_before(ms, j) <= ms[j].0 && ms[j].1 == ms[j].0 + p.len() by {
        lemma_first_match_from(t, p, end_before(ms, j));
    }
    assert forall|j: int, a: int|
        0 <= j < ms.len() && end_before(ms, j) <= a < #[trigger] ms[j].0 implies !#[trigger] matches_at(
            t,
            p,
            a,
        ) by {
        lemma_first_match_from(t, p, end_before(ms, j));
    }
    assert forall|i: int, j: int| 0 <= i < j < ms.len() implies #[trigger] ms[i].1 <= #[trigger] ms[j].0 by {
        lemma_chain_rises(t, p, ms, i, j);
    }
}

proof fn lemma_chain_rises(t: Seq<char>, p: Seq<char>, ms: Seq<(usize, usize)>, i: int, j: int)
    requires
        is_match_chain(t, p, ms),
        0 <= i < j < ms.len(),
    ensures
        ms[i].1 <= ms[j].0,
    decreases j - i,
{
    lemma_first_match_from(t, p, end_before(ms, j));
    assert(first_match_from(t, p, end_before(ms, j)) == Some(ms[j].0 as int));
    if j > i + 1 {
        lemma_chain_rises(t, p, ms, i, j - 1);
        lemma_first_match_from(t, p, end_before(ms, j - 1));
        assert(first_match_from(t, p, end_before(ms, j - 1)) == Some(ms[j - 1].0 as int));
    }
}

/// Once `SearchIter::next` finds nothing from the end of the last result, the
/// results account for every occurrence of the pattern: each occurrence
/// starts within one of the results.
pub proof fn lemma_match_chain_complete(t: Seq<char>, p: Seq<char>, ms: Seq<(usize, usize)>)
    requires
        is_match_chain(t, p, ms),
        first_match_from(t, p, end_before(ms, ms.len() as int)) is None,
    ensures
        forall|a: int|
            #[trigger] matches_at(t, p, a) ==> exists|j: int|
                0 <= j < ms.len() && #[trigger] ms[j].0 <= a < ms[j].1,
{
    assert forall|a: int| #[trigger] matches_at(t, p, a) implies exists|j: int|
        0 <= j < ms.len() && #[trigger] ms[j].0 <= a < ms[j].1 by {
        lemma_match_covered_from(t, p, ms, a, 0);
    }
}

proof fn lemma_match_covered_from(t: Seq<char>, p: Seq<char>, ms: Seq<(usize, usize)>, a: int, j: int)
    requires
        is_match_chain(t, p, ms),
        first_match_from(t, p, end_before(ms, ms.len() as int)) is None,
        matches_at(t, p, a),
        0 <= j <= ms.len(),
        end_before(ms, j) <= a,
    ensures
        exists|i: int| j <= i < ms.len() && #[trigger] ms[i].0 <= a < ms[i].1,
    decreases ms.len() - j,
{
    if j == ms.len() {
        lemma_first_match_from(t, p, end_before(ms, j));
        if j > 0 {
            assert(ms[j - 1].1 >= 0);
        }
    } else {
        if j > 0 {
            assert(ms[j - 1].1 >= 0);
        }
        lemma_first_match_from(t, p, end_before(ms, j));
        assert(first_match_from(t, p, end_before(ms, j)) == Some(ms[j].0 as int));
        if a < ms[j].1 {
            assert(ms[j].0 <= a < ms[j].1);
        } else {
            assert(end_before(ms, j + 1) == ms[j].1);
            lemma_match_covered_from(t, p, ms, a, j + 1);
        }
    }
}

/// Replacing match `j` of a batch: the replaced text so far grows by the text
/// before the match and the replacement, and still fits in the final text.
proof fn lemma_batch_step(
    tp: Seq<char>,
    p: Seq<char>,
    r: Seq<char>,
    ms: Seq<(usize, usize)>,
    j: int,
    rj: Seq<char>,
    done: Seq<char>,
    fin: Seq<char>,
)
    requires
        p.len() > 0,
        is_match_chain(tp, p, ms),
        0 <= j < ms.len(),
        0 <= end_before(ms, j) <= tp.len(),
        rj + replaced_from(tp, p, r, end_before(ms, j)) == replaced_from(tp, p, r, 0),
        done + replaced_from(tp, p, r, 0) == fin,
    ensures
        ({
            let e = end_before(ms, j);
            let s = ms[j].0 as int;
            let en = ms[j].1 as int;
            let rj2 = rj + tp.subrange(e, s) + r;
            &&& e <= s
            &&& en == s + p.len() <= tp.len()
            &&& end_before(ms, j + 1) == en
            &&& rj2 + replaced_from(tp, p, r, en) == replaced_from(tp, p, r, 0)
            &&& done.len() + rj2.len() <= fin.len()
        }),
{
    let e = end_before(ms, j);
    let s = ms[j].0 as int;
    let en = ms[j].1 as int;
    let rj2 = rj + tp.subrange(e, s) + r;
    lemma_first_match_from(tp, p, e);
    assert(replaced_from(tp, p, r, e) == tp.subrange(e, s) + r + replaced_from(tp, p, r, en));
    assert(rj2 + replaced_from(tp, p, r, en) =~= rj + replaced_from(tp, p, r, e));
    assert(fin =~= (done + rj2) + replaced_from(tp, p, r, en));
}

/// Removing chars `s..en` of `tp` from `a + tp[e..]` and inserting `r` where
/// they were gives `a + tp[e..s] + r + tp[en..]`.
proof fn lemma_splice(a: Seq<char>, tp: Seq<char>, e: int, s: int, en: int, r: Seq<char>)
    requires
        0 <= e <= s <= en <= tp.len(),
    ensures
        ({
            let x = a + tp.subrange(e, tp.len() as int);
            let i = a.len() + (s - e);
            let k = a.len() + (en - e);
            let y = x.subrange(0, i) + x.subrange(k, x.len() as int);
            y.subrange(0, i) + r + y.subrange(i, y.len() as int) == a + tp.subrange(e, s) + r
                + tp.subrange(en, tp.len() as int)
        }),
{
    let x = a + tp.subrange(e, tp.len() as int);
    let i = a.len() + (s - e);
    let k = a.len() + (en - e);
    let y = x.subrange(0, i) + x.subrange(k, x.len() as int);
    assert(y.subrange(0, i) =~= a + tp.subrange(e, s));
    assert(y.subrange(i, y.len() as int) =~= tp.subrange(en, tp.len() as int));
}

/// The chars of `s`, in order.
pub fn str_chars(s: &str) -> (v: Vec<char>)
    ensures
        v@ == s@,
{
    broadcast use vstd::string::group_string_axioms;

    let mut v: Vec<char> = Vec::new();
    for c in it: s.chars()
        invariant
            it.seq() == s@,
            v@ == it.seq().take(it.index() as int),
    {
        v.push(c);
    }
    v
}

/// An iterator over simple textual matches in a `RopeSlice`.
///
/// Yields the start/end char indices of each match, left to right; a match
/// never overlaps the one before it.
pub struct SearchIter<'a> {
    char_iter: Chars<'a>,
    search_pattern: Vec<char>,
    search_pattern_char_len: usize,
    // The current char index of the search head.
    cur_index: usize,
    // How many pattern chars each possible match in progress has matched so far.
    possible_matches: Vec<usize>,
    text: Ghost<Seq<char>>,
    resume: Ghost<int>,
}

impl<'a> SearchIter<'a> {
    /// The chars being searched.
    pub closed spec fn text(&self) -> Seq<char> {
        self.text@
    }

    /// The chars searched for.
    pub closed spec fn pattern(&self) -> Seq<char> {
        self.search_pattern@
    }

    /// The char index at which the next match may start.
    pub closed spec fn resume_index(&self) -> int {
        self.resume@
    }

    /// The search state is consistent: the chars left to read are the text
    /// past the search head, every possible match in progress is one, every
    /// one that started at or after the resume index is tracked, and no match
    /// starting at or after the resume index ends at or before the head.
    ///
    /// `next` requires and keeps this, rather than it being a type invariant:
    /// a step pushes onto a `Vec` and reads ropey's `Chars`, both of which may
    /// unwind, and Verus admits a call that mutates a field under a type
    /// invariant only for a `no_unwind` function.
    pub closed spec fn wf(&self) -> bool {
        let t = self.text@;
        let p = self.search_pattern@;
        let m = p.len() as int;
        let cur = self.cur_index as int;
        let h = self.resume@;
        let pm = self.possible_matches@;
        &&& chars_remaining(self.char_iter) == t.subrange(cur, t.len() as int)
        &&& cur <= t.len() <= usize::MAX
        &&& m == self.search_pattern_char_len
        &&& m >= 1
        &&& 0 <= h <= cur
        &&& forall|j: int|
            0 <= j < pm.len() ==> 1 <= #[trigger] pm[j] < m && pm[j] <= cur - h
                && is_partial_match(t, p, cur, pm[j] as int)
        &&& forall|k: int|
            1 <= k < m && k <= cur - h && #[trigger] is_partial_match(t, p, cur, k) ==> exists|
                j: int,
            | 0 <= j < pm.len() && pm[j] == k
        &&& forall|a: int| h <= a && a + m <= cur ==> !#[trigger] matches_at(t, p, a)
    }

    pub fn from_rope_slice<'b>(slice: &RopeSlice<'b>, search_pattern: &'b str) -> (it: SearchIter<'b>)
        requires
            search_pattern@.len() > 0,
        ensures
            it.wf(),
            it.text() == slice_text(*slice),
            it.pattern() == search_pattern@,
            it.resume_index() == 0,
    {
        let pattern = str_chars(search_pattern);
        let n = pattern.len();
        // The slice's char count bounds the search head.
        let _text_len = slice_len_chars(slice);
        let it = SearchIter {
            char_iter: slice_chars(slice),
            search_pattern: pattern,
            search_pattern_char_len: n,
            cur_index: 0,
            possible_matches: Vec::new(),
            text: Ghost(slice_text(*slice)),
            resume: Ghost(0),
        };
        proof {
            assert(slice_text(*slice).subrange(0, slice_text(*slice).len() as int) =~= slice_text(
                *slice,
            ));
        }
        it
    }

    /// Returns the start/end char indices of the next match, searching from
    /// the resume index.
    pub fn next(&mut self) -> (r: Option<(usize, usize)>)
        requires
            old(self).wf(),
        ensures
            final(self).wf(),
            final(self).text() == old(self).text(),
            final(self).pattern() == old(self).pattern(),
            first_match_from(old(self).text(), old(self).pattern(), old(self).resume_index())
                is None ==> r is None && final(self).resume_index() == old(self).resume_index(),
            first_match_from(old(self).text(), old(self).pattern(), old(self).resume_index())
                matches Some(a) ==> (r matches Some(mr) && mr.0 == a && mr.1 == a + old(
                self,
            ).pattern().len() && final(self).resume_index() == mr.1),
    {
        let ghost t = self.text@;
        let ghost p = self.search_pattern@;
        let ghost m = p.len() as int;
        let ghost h = self.resume@;
        loop
            invariant
                self.wf(),
                self.text@ == t,
                self.search_pattern@ == p,
                self.resume@ == h,
                m == p.len(),
                t == old(self).text@,
                p == old(self).search_pattern@,
                h == old(self).resume@,
            decreases t.len() - self.cur_index,
        {
            let ghost c0 = self.cur_index as int;
            let next_char = match chars_next(&mut self.char_iter) {
                Some(c) => c,
                None => {
                    proof {
                        assert(t.subrange(c0, t.len() as int).len() == 0);
                        assert forall|b: int| h <= b implies !matches_at(t, p, b) by {
                            if matches_at(t, p, b) {
                                assert(b + m <= c0);
                            }
                        }
                        lemma_first_match_none(t, p, h);
                    }
                    return None;
                },
            };
            proof {
                assert(t.subrange(c0, t.len() as int)[0] == t[c0]);
                assert(t.subrange(c0, t.len() as int).drop_first() =~= t.subrange(
                    c0 + 1,
                    t.len() as int,
                ));
                assert(t.subrange(c0, c0) =~= p.take(0));
            }
            let ghost pm_before = self.possible_matches@;
            self.cur_index = self.cur_index + 1;
            self.possible_matches.push(0);
            proof {
                let pm = self.possible_matches@;
                assert(pm == pm_before.push(0));
                assert forall|k: int|
                    0 <= k < m && k <= c0 - h && #[trigger] is_partial_match(t, p, c0, k) && t[c0]
                        == p[k] implies exists|j: int| 0 <= j < pm.len() && pm[j] == k by {
                    if k == 0 {
                        assert(pm[pm.len() - 1] == 0);
                    } else {
                        let j = choose|j: int| 0 <= j < pm_before.len() && pm_before[j] == k;
                        assert(pm[j] == k);
                    }
                }
            }
            let mut i: usize = 0;
            while i < self.possible_matches.len()
                invariant
                    self.text@ == t,
                    self.search_pattern@ == p,
                    self.resume@ == h,
                    m == p.len(),
                    m == self.search_pattern_char_len,
                    m >= 1,
                    t == old(self).text@,
                    p == old(self).search_pattern@,
                    h == old(self).resume@,
                    self.cur_index == c0 + 1,
                    c0 < t.len() <= usize::MAX,
                    t[c0] == next_char,
                    0 <= h <= c0,
                    chars_remaining(self.char_iter) == t.subrange(c0 + 1, t.len() as int),
                    0 <= i <= self.possible_matches.len(),
                    forall|j: int|
                        0 <= j < i ==> 1 <= #[trigger] self.possible_matches@[j] < m
                            && self.possible_matches@[j] <= c0 + 1 - h && is_partial_match(
                            t,
                            p,
                            c0 + 1,
                            self.possible_matches@[j] as int,
                        ),
                    forall|j: int|
                        i <= j < self.possible_matches.len() ==> 0
                            <= #[trigger] self.possible_matches@[j] < m
                            && self.possible_matches@[j] <= c0 - h && is_partial_match(
                            t,
                            p,
                            c0,
                            self.possible_matches@[j] as int,
                        ),
                    forall|k: int|
                        0 <= k < m && k <= c0 - h && #[trigger] is_partial_match(t, p, c0, k)
                            && t[c0] == p[k] ==> (exists|j: int|
                            i <= j < self.possible_matches.len() && self.possible_matches@[j]
                                == k) || (k + 1 < m && exists|j: int|
                            0 <= j < i && self.possible_matches@[j] == k + 1),
                    forall|a: int| h <= a && a + m <= c0 ==> !#[trigger] matches_at(t, p, a),
                decreases self.possible_matches.len() - i,
            {
                let k = self.possible_matches[i];
                let pattern_char = self.search_pattern[k];
                if next_char == pattern_char {
                    proof {
                        lemma_partial_extend(t, p, c0, k as int);
                    }
                    if k + 1 == self.search_pattern_char_len {
                        // We have a match!  Reset possible matches and
                        // return the successful match's char indices.
                        proof {
                            let a = c0 + 1 - m;
                            lemma_matches_at_partial(t, p, a);
                            lemma_first_match_is(t, p, h, a);
                        }
                        let char_match_range = (
                            self.cur_index - self.search_pattern_char_len,
                            self.cur_index,
                        );
                        self.possible_matches.clear();
                        self.resume = Ghost(self.cur_index as int);
                        proof {
                            assert forall|b: int|
                                self.resume@ <= b && b + m <= self.cur_index implies !matches_at(
                                t,
                                p,
                                b,
                            ) by {}
                        }
                        return Some(char_match_range);
                    } else {
                        // Match isn't complete yet, move on to the next.
                        let ghost pm0 = self.possible_matches@;
                        self.possible_matches.set(i, k + 1);
                        proof {
                            let pm = self.possible_matches@;
                            assert forall|k2: int|
                                0 <= k2 < m && k2 <= c0 - h && #[trigger] is_partial_match(
                                    t,
                                    p,
                                    c0,
                                    k2,
                                ) && t[c0] == p[k2] implies (exists|j: int|
                                i + 1 <= j < pm.len() && pm[j] == k2) || (k2 + 1 < m && exists|
                                j: int,
                            | 0 <= j < i + 1 && pm[j] == k2 + 1) by {
                                if k2 == k {
                                    assert(pm[i as int] == k2 + 1);
                                } else if exists|j: int| i <= j < pm0.len() && pm0[j] == k2 {
                                    let j = choose|j: int| i <= j < pm0.len() && pm0[j] == k2;
                                    assert(pm[j] == k2);
                                } else {
                                    let j = choose|j: int| 0 <= j < i && pm0[j] == k2 + 1;
                                    assert(pm[j] == k2 + 1);
                                }
                            }
                        }
                        i += 1;
                    }
                } else {
                    // Doesn't match, remove it.
                    let ghost pm0 = self.possible_matches@;
                    let _ = self.possible_matches.swap_remove(i);
                    proof {
                        let pm = self.possible_matches@;
                        assert forall|j: int| 0 <= j < pm.len() implies #[trigger] pm[j] == (if j
                            == i {
                            pm0[pm0.len() - 1]
                        } else {
                            pm0[j]
                        }) by {}
                        assert forall|k2: int|
                            0 <= k2 < m && k2 <= c0 - h && #[trigger] is_partial_match(t, p, c0, k2)
                                && t[c0] == p[k2] implies (exists|j: int|
                            i <= j < pm.len() && pm[j] == k2) || (k2 + 1 < m && exists|j: int|
                            0 <= j < i && pm[j] == k2 + 1) by {
                            if exists|j: int| i <= j < pm0.len() && pm0[j] == k2 {
                                let j = choose|j: int| i <= j < pm0.len() && pm0[j] == k2;
                                if j == pm0.len() - 1 {
                                    assert(pm[i as int] == k2);
                                } else {
                                    assert(pm[j] == k2);
                                }
                            } else {
                                let j = choose|j: int| 0 <= j < i && pm0[j] == k2 + 1;
                                assert(pm[j] == k2 + 1);
                            }
                        }
                    }
                }
            }
            proof {
                let cur = c0 + 1;
                let pm = self.possible_matches@;
                assert forall|k2: int|
                    1 <= k2 < m && k2 <= cur - h && #[trigger] is_partial_match(
                        t,
                        p,
                        cur,
                        k2,
                    ) implies exists|j: int| 0 <= j < pm.len() && pm[j] == k2 by {
                    lemma_partial_shrink(t, p, c0, k2 - 1);
                }
                assert forall|a: int| h <= a && a + m <= cur implies !#[trigger] matches_at(
                    t,
                    p,
                    a,
                ) by {
                    if a + m == cur && matches_at(t, p, a) {
                        lemma_matches_at_partial(t, p, a);
                        lemma_partial_shrink(t, p, c0, m - 1);
                    }
                }
            }
        }
    }
}

/// Searches the rope for `search_pattern` and replaces all matches with
/// `replacement_text`.
///
/// The matches are collected in batches of at most `BATCH_SIZE` and each
/// batch is replaced before the next one is searched for, so the space taken
/// by the matches stays bounded while restarting the search is paid for only
/// once per batch.
///
/// The text of the rope and the text after replacing must both have char
/// counts that, added up, fit in an `isize`, which the offsets are computed in.
#[verifier::rlimit(40)]
pub fn search_and_replace(rope: &mut Rope, search_pattern: &str, replacement_text: &str)
    requires
        search_pattern@.len() > 0,
        rope_text(*old(rope)).len() + replace_all(
            rope_text(*old(rope)),
            search_pattern@,
            replacement_text@,
        ).len() <= isize::MAX,
    ensures
        rope_text(*final(rope)) == replace_all(
            rope_text(*old(rope)),
            search_pattern@,
            replacement_text@,
        ),
{
    let ghost t0 = rope_text(*rope);
    let ghost p = search_pattern@;
    let ghost r = replacement_text@;
    let ghost fin = replace_all(t0, p, r);
    let replacement_text_len = str_chars(replacement_text).len();

    let mut head: usize = 0;  // Keep track of where we are between searches
    let mut matches: Vec<(usize, usize)> = Vec::with_capacity(BATCH_SIZE);
    let ghost mut done: Seq<char> = Seq::empty();
    let ghost mut oh: int = 0;
    proof {
        assert(t0.subrange(0, t0.len() as int) =~= t0);
        assert(done + t0 =~= t0);
        assert(done + fin =~= fin);
    }
    loop
        invariant
            p == search_pattern@,
            r == replacement_text@,
            p.len() > 0,
            fin == replace_all(t0, p, r),
            t0.len() + fin.len() <= isize::MAX,
            replacement_text_len == r.len(),
            0 <= oh <= t0.len(),
            rope_text(*rope) == done + t0.subrange(oh, t0.len() as int),
            done.len() == head,
            done + replaced_from(t0, p, r, oh) == fin,
            rope_text(*old(rope)) == t0,
        ensures
            rope_text(*rope) == fin,
        decreases t0.len() - oh,
    {
        // Collect the next batch of matches.
        matches.clear();
        let len = rope_len_chars(rope);
        let ghost tp = t0.subrange(oh, t0.len() as int);
        proof {
            assert((done + tp).subrange(head as int, len as int) =~= tp);
            lemma_replaced_suffix(t0, p, r, oh, 0);
        }
        let slice = rope_slice(rope, head, len);
        let mut iter = SearchIter::from_rope_slice(&slice, search_pattern);
        while matches.len() < BATCH_SIZE
            invariant
                iter.wf(),
                iter.text() == tp,
                iter.pattern() == p,
                matches.len() <= BATCH_SIZE,
                is_match_chain(tp, p, matches@),
                iter.resume_index() == end_before(matches@, matches.len() as int),
            ensures
                is_match_chain(tp, p, matches@),
                matches.len() <= BATCH_SIZE,
                matches.len() == 0 ==> first_match_from(tp, p, 0) is None,
            decreases BATCH_SIZE - matches.len(),
        {
            match iter.next() {
                Some(m) => {
                    proof {
                        lemma_match_chain_extends(tp, p, matches@, m);
                    }
                    matches.push(m);
                },
                None => {
                    break ;
                },
            }
        }

        // If there are no matches, we're done!
        if matches.len() == 0 {
            proof {
                assert(tp.subrange(0, tp.len() as int) =~= tp);
            }
            break ;
        }

        // Replace the collected matches.
        let mut index_diff: isize = 0;
        let mut j: usize = 0;
        let ghost mut rj: Seq<char> = Seq::empty();
        proof {
            assert(tp.subrange(0, tp.len() as int) =~= tp);
            assert(rj + replaced_from(tp, p, r, 0) =~= replaced_from(tp, p, r, 0));
            assert(done + rj =~= done);
        }
        while j < matches.len()
            invariant
                p == search_pattern@,
                r == replacement_text@,
                p.len() > 0,
                replacement_text_len == r.len(),
                t0.len() + fin.len() <= isize::MAX,
                tp.len() <= t0.len(),
                is_match_chain(tp, p, matches@),
                0 <= j <= matches.len(),
                done.len() == head,
                done + replaced_from(tp, p, r, 0) == fin,
                rj + replaced_from(tp, p, r, end_before(matches@, j as int)) == replaced_from(
                    tp,
                    p,
                    r,
                    0,
                ),
                0 <= end_before(matches@, j as int) <= tp.len(),
                rope_text(*rope) == done + rj + tp.subrange(
                    end_before(matches@, j as int),
                    tp.len() as int,
                ),
                index_diff == rj.len() - end_before(matches@, j as int),
            decreases matches.len() - j,
        {
            let (start, end) = matches[j];
            let ghost e = end_before(matches@, j as int);
            proof {
                lemma_batch_step(tp, p, r, matches@, j as int, rj, done, fin);
            }
            // Get the properly offset indices.
            let start_d = (head as isize + start as isize + index_diff) as usize;
            let end_d = (head as isize + end as isize + index_diff) as usize;

            // Do the replacement.
            rope_remove(rope, start_d, end_d);
            rope_insert(rope, start_d, replacement_text);
            proof {
                lemma_splice(done + rj, tp, e, start as int, end as int, r);
                rj = rj + tp.subrange(e, start as int) + r;
            }

            // Update the index offset.
            let match_len = (end - start) as isize;
            index_diff = index_diff - match_len + replacement_text_len as isize;
            j += 1;
            proof {
                assert(end_before(matches@, j as int) == end);
            }
        }

        // Update head for next iteration.
        let last_end = matches[matches.len() - 1].1;
        head = (head as isize + index_diff + last_end as isize) as usize;
        proof {
            let e = last_end as int;
            assert(end_before(matches@, matches.len() as int) == e);
            lemma_replaced_suffix(t0, p, r, oh, e);
            assert(tp.subrange(e, tp.len() as int) =~= t0.subrange(oh + e, t0.len() as int));
            assert((done + rj) + replaced_from(t0, p, r, oh + e) =~= done + replaced_from(
                tp,
                p,
                r,
                0,
            ));
            assert(matches@[matches.len() - 1].1 == matches@[matches.len() - 1].0 + p.len());
            done = done + rj;
            oh = oh + e;
        }
    }
}

} // verus!
