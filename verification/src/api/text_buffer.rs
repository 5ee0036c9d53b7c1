//! A text that can be read by char offsets, with a cursor to move through it.
use vstd::prelude::*;
use std::borrow::Cow;
use std::ops::Range;
use super::text_buffer_cursor::TextBufferCursor;
use crate::segmentation::{is_next_boundary_char, is_prev_boundary_char};
use crate::utf8::utf8_len;

verus! {

/// Offset `p` is the start of the line that contains offset `k` of `t`: it
/// follows a line feed, or is the start of the text, and no line feed lies
/// between it and `k`.
pub open spec fn is_line_start_before(t: Seq<char>, k: int, p: int) -> bool {
    &&& 0 <= p <= k
    &&& (p == 0 || t[p - 1] == '\n')
    &&& forall|j: int| p <= j < k ==> t[j] != '\n'
}

/// Offset `n` is the first line feed at or after offset `k` of `t`, or the end
/// of `t` when none follows.
pub open spec fn is_line_end_after(t: Seq<char>, k: int, n: int) -> bool {
    &&& k <= n <= t.len()
    &&& (n == t.len() || t[n] == '\n')
    &&& forall|j: int| k <= j < n ==> t[j] != '\n'
}

/// The codepoint offset after offset `k` of a text of `len` chars, if any.
pub open spec fn codepoint_after(len: int, k: int) -> Option<usize> {
    if 0 <= k < len {
        Some((k + 1) as usize)
    } else {
        None
    }
}

/// The codepoint offset before offset `k` of a text of `len` chars, if any.
pub open spec fn codepoint_before(len: int, k: int) -> Option<usize> {
    if 0 < k <= len {
        Some((k - 1) as usize)
    } else {
        None
    }
}

/// Stepping one codepoint forward and then one back returns to the start, and
/// so does stepping back and then forward.
pub proof fn lemma_codepoint_steps_undo(len: int, k: int)
    requires
        len <= usize::MAX,
    ensures
        codepoint_after(len, k) matches Some(n) ==> codepoint_before(len, n as int) == Some(
            k as usize,
        ),
        codepoint_before(len, k) matches Some(p) ==> codepoint_after(len, p as int) == Some(
            k as usize,
        ),
{
}

/// Offsets `k` and `n` lie on the same line of `t` exactly when they have
/// the same line start; in particular the line end after `k` lies on the line
/// of `k`.
pub proof fn lemma_line_end_on_same_line(t: Seq<char>, k: int, p: int, n: int, p2: int)
    requires
        is_line_start_before(t, k, p),
        is_line_end_after(t, k, n),
        is_line_start_before(t, n, p2),
    ensures
        p2 == p,
{
    if p2 < p {
        assert(t[p - 1] == '\n');
    }
    if p2 > p {
        assert(t[p2 - 1] == '\n');
        if p2 - 1 >= k {
            assert(t[p2 - 1] != '\n');
        }
    }
}

/// A char counts towards a word: it is alphanumeric.
pub open spec fn is_word_char(c: char) -> bool {
    crate::api::text_buffer::alphanumeric(c)
}

/// Whether `char::is_alphanumeric` holds of `c` (alphabetic or numeric, by
/// the Unicode tables of std).
pub uninterp spec fn alphanumeric(c: char) -> bool;

/// `char::is_alphanumeric`.
#[verifier::external_body]
pub(crate) fn char_is_alphanumeric(c: char) -> (b: bool)
    ensures
        b == alphanumeric(c),
{
    c.is_alphanumeric()
}

/// The chars of `t` in `a..b` are all word chars.
pub open spec fn all_word_chars(t: Seq<char>, a: int, b: int) -> bool {
    forall|j: int| a <= j < b ==> is_word_char(#[trigger] t[j])
}

/// None of the chars of `t` in `a..b` is a word char.
pub open spec fn no_word_chars(t: Seq<char>, a: int, b: int) -> bool {
    forall|j: int| a <= j < b ==> !is_word_char(#[trigger] t[j])
}

/// Offset `p` starts the last word before offset `k` of `t`: `t[p..q]` are
/// word chars and `t[q..k]` are not, and `p` is the start of the text or
/// follows a char that is not a word char.
pub open spec fn is_prev_word_start(t: Seq<char>, k: int, p: int) -> bool {
    &&& 0 <= p < k <= t.len()
    &&& (p == 0 || !is_word_char(t[p - 1]))
    &&& exists|q: int| p < q <= k && #[trigger] all_word_chars(t, p, q) && no_word_chars(t, q, k)
}

/// Offset `n`, past offset `k` of `t`, ends the first word after `k`, or is
/// the end of `t` when no word follows: `t[k..q]` are not word chars, `t[q..n]`
/// are, and the char at `n` (if any) is not, after at least one word char.
pub open spec fn is_next_word_end(t: Seq<char>, k: int, n: int) -> bool {
    &&& 0 <= k < n <= t.len()
    &&& exists|q: int|
        k <= q <= n && #[trigger] no_word_chars(t, k, q) && all_word_chars(t, q, n) && (n
            == t.len() || (q < n && !is_word_char(t[n])))
}

/// A text, addressed by char offsets: offset `k` is the position before the
/// `k`-th char, and the offsets run from 0 to the number of chars.
pub trait TextBuffer: Sized {
    type Cursor<'cursor>: TextBufferCursor<'cursor, Self> where Self: 'cursor;

    /// The chars of the text.
    spec fn text(&self) -> Seq<char>;

    /// Create a cursor with a reference to the text and a offset position.
    ///
    /// Returns None if the position isn't a codepoint boundary.
    fn cursor<'cursor>(&'cursor self, position: usize) -> (r: Option<Self::Cursor<'cursor>>)
        ensures
            r is Some <==> position <= self.text().len(),
            r matches Some(c) ==> c.cursor_text() == self.text() && c.position() == position,
    ;

    /// Get slice of text at range.
    fn slice(&self, range: Range<usize>) -> (r: Option<Cow<'_, str>>)
        requires
            range.start <= range.end <= self.text().len(),
        ensures
            r matches Some(s) && s@ == self.text().subrange(range.start as int, range.end as int),
    ;

    /// Get length of text (in bytes).
    fn len(&self) -> (n: usize)
        ensures
            n == utf8_len(self.text()),
    ;

    /// Get the previous word offset from the given offset, if it exists.
    ///
    /// A word is a run of alphanumeric chars; the offset is the start of the
    /// last word that begins before the given offset.
    fn prev_word_offset(&self, offset: usize) -> (r: Option<usize>)
        ensures
            r matches Some(p) ==> is_prev_word_start(self.text(), offset as int, p as int),
            r is None ==> forall|p: int| !is_prev_word_start(self.text(), offset as int, p),
    ;

    /// Get the next word offset from the given offset, if it exists.
    ///
    /// The offset is the end of the first word after the given offset, or the
    /// end of the text when that word runs to it or no word follows; there is
    /// none at or past the end of the text.
    fn next_word_offset(&self, offset: usize) -> (r: Option<usize>)
        ensures
            offset >= self.text().len() ==> r is None,
            offset < self.text().len() ==> (r matches Some(n) && is_next_word_end(
                self.text(),
                offset as int,
                n as int,
            )),
    ;

    /// Get the previous grapheme offset from the given offset, if it exists.
    fn prev_grapheme_offset(&self, offset: usize) -> (r: Option<usize>)
        ensures
            offset > self.text().len() ==> r is None,
            offset <= self.text().len() ==> (r matches Some(p) && is_prev_boundary_char(
                self.text(),
                offset as int,
                p as int,
                true,
            )),
    ;

    /// Get the next grapheme offset from the given offset, if it exists.
    fn next_grapheme_offset(&self, offset: usize) -> (r: Option<usize>)
        ensures
            offset > self.text().len() ==> r is None,
            offset <= self.text().len() ==> (r matches Some(n) && is_next_boundary_char(
                self.text(),
                offset as int,
                n as int,
                true,
            )),
    ;

    /// Get the previous codepoint offset from the given offset, if it exists.
    fn prev_codepoint_offset(&self, offset: usize) -> (r: Option<usize>)
        ensures
            r == codepoint_before(self.text().len() as int, offset as int),
    ;

    /// Get the next codepoint offset from the given offset, if it exists.
    fn next_codepoint_offset(&self, offset: usize) -> (r: Option<usize>)
        ensures
            r == codepoint_after(self.text().len() as int, offset as int),
    ;

    /// Get the preceding line break offset from the given offset
    fn preceding_line_break(&self, offset: usize) -> (p: usize)
        requires
            offset <= self.text().len(),
        ensures
            is_line_start_before(self.text(), offset as int, p as int),
    ;

    /// Get the next line break offset from the given offset
    fn next_line_break(&self, offset: usize) -> (n: usize)
        requires
            offset <= self.text().len(),
        ensures
            is_line_end_after(self.text(), offset as int, n as int),
    ;

    /// Returns `true` if this text has 0 length.
    fn is_empty(&self) -> (b: bool)
        ensures
            b == (self.text().len() == 0),
    ;

    /// Construct an instance of this type from a `&str`.
    fn from_str(s: &str) -> (r: Self)
        ensures
            r.text() == s@,
    ;
}

} // verus!
