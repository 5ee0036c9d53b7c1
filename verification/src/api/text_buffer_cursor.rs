//! A cursor over a `TextBuffer`, at a char offset of its text.
use vstd::prelude::*;
use super::text_buffer::codepoint_after;

verus! {

/// The greatest codepoint boundary below offset `k` of a text of `len` chars,
/// if there is one: every offset from 0 to `len` is a boundary, so it is
/// `k - 1`, or the end of the text when `k` lies past it.
pub open spec fn boundary_below(len: int, k: int) -> Option<usize> {
    if 0 < k {
        if k <= len {
            Some((k - 1) as usize)
        } else {
            Some(len as usize)
        }
    } else {
        None
    }
}

/// A cursor's steps undo each other: a step forward and then back returns to
/// where it started, and so does a step back and then forward from a
/// boundary past the start.
pub proof fn lemma_cursor_steps_undo(len: int, k: int)
    requires
        0 <= len <= usize::MAX,
    ensures
        codepoint_after(len, k) matches Some(n) ==> boundary_below(len, n as int) == Some(
            k as usize,
        ),
        k <= len ==> (boundary_below(len, k) matches Some(p) ==> codepoint_after(len, p as int)
            == Some(k as usize)),
{
}

/// A cursor with convenience functions for moving through a TextBuffer.
///
/// Positions are char offsets; every offset from 0 to the number of chars is
/// a codepoint boundary. `B` is the text buffer type the cursor belongs to
/// (its `TextBuffer::Cursor`).
pub trait TextBufferCursor<'cursor, B> {
    /// The chars of the text the cursor moves through.
    spec fn cursor_text(&self) -> Seq<char>;

    /// The cursor's offset.
    spec fn position(&self) -> int;

    /// Set cursor position.
    fn set(&mut self, position: usize)
        ensures
            final(self).cursor_text() == old(self).cursor_text(),
            final(self).position() == position,
    ;

    /// Get cursor position.
    fn pos(&self) -> (p: usize)
        ensures
            p == self.position(),
    ;

    /// Check if cursor position is at a codepoint boundary.
    fn is_boundary(&self) -> (b: bool)
        ensures
            b == (self.position() <= self.cursor_text().len()),
    ;

    /// Move cursor to previous codepoint boundary, if it exists.
    /// Returns previous codepoint as usize offset.
    ///
    /// From past the end of the text, the previous boundary is the end.
    fn prev(&mut self) -> (r: Option<usize>)
        ensures
            final(self).cursor_text() == old(self).cursor_text(),
            r == boundary_below(old(self).cursor_text().len() as int, old(self).position()),
            final(self).position() == match r {
                Some(p) => p as int,
                None => old(self).position(),
            },
    ;

    /// Move cursor to next codepoint boundary, if it exists.
    /// Returns current codepoint as usize offset.
    fn next(&mut self) -> (r: Option<usize>)
        ensures
            final(self).cursor_text() == old(self).cursor_text(),
            r == codepoint_after(old(self).cursor_text().len() as int, old(self).position()),
            r matches Some(n) ==> n == old(self).position() + 1,
            final(self).position() == match r {
                Some(n) => n as int,
                None => old(self).position(),
            },
    ;

    /// Get the next codepoint after the cursor position, without advancing
    /// the cursor.
    fn peek_next_codepoint(&self) -> (r: Option<char>)
        ensures
            self.position() < self.cursor_text().len() ==> r == Some(
                self.cursor_text()[self.position()],
            ),
            self.position() >= self.cursor_text().len() ==> r is None,
    ;

    /// Return codepoint preceding cursor offset and move cursor backward.
    ///
    /// The cursor must not lie past the end of the text: stepping back from
    /// there lands on the end, where no codepoint starts.
    fn prev_codepoint(&mut self) -> (r: Option<char>)
        requires
            old(self).position() <= old(self).cursor_text().len(),
        ensures
            final(self).cursor_text() == old(self).cursor_text(),
            0 < old(self).position() ==> r == Some(
                old(self).cursor_text()[old(self).position() - 1],
            ) && final(self).position() == old(self).position() - 1,
            old(self).position() == 0 ==> r is None && final(self).position() == 0,
    ;

    /// Return codepoint at cursor offset and move cursor forward.
    fn next_codepoint(&mut self) -> (r: Option<char>)
        ensures
            final(self).cursor_text() == old(self).cursor_text(),
            old(self).position() < old(self).cursor_text().len() ==> r == Some(
                old(self).cursor_text()[old(self).position()],
            ) && final(self).position() == old(self).position() + 1,
            old(self).position() >= old(self).cursor_text().len() ==> r is None
                && final(self).position() == old(self).position(),
    ;

    /// Return current offset if it's a boundary, else next.
    fn at_or_next(&mut self) -> (r: Option<usize>)
        ensures
            final(self).cursor_text() == old(self).cursor_text(),
            final(self).position() == old(self).position(),
            old(self).position() <= old(self).cursor_text().len() ==> r == Some(
                old(self).position() as usize,
            ),
            old(self).position() > old(self).cursor_text().len() ==> r is None,
    ;

    /// Return current offset if it's a boundary, else previous.
    ///
    /// Past the end of the text, the previous boundary is the end, and the
    /// cursor moves there.
    fn at_or_prev(&mut self) -> (r: Option<usize>)
        ensures
            final(self).cursor_text() == old(self).cursor_text(),
            old(self).position() <= old(self).cursor_text().len() ==> r == Some(
                old(self).position() as usize,
            ) && final(self).position() == old(self).position(),
            old(self).position() > old(self).cursor_text().len() ==> r == Some(
                old(self).cursor_text().len() as usize,
            ) && final(self).position() == old(self).cursor_text().len(),
    ;
}

} // verus!
