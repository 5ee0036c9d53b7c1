//! A `Rope` is a `TextBuffer`: its offsets are char indices.
use vstd::prelude::*;
use ropey::Rope;
use std::borrow::Cow;
use std::ops::Range;
use crate::api::text_buffer::{
    all_word_chars, char_is_alphanumeric, is_next_word_end, is_prev_word_start, is_word_char,
    no_word_chars, TextBuffer,
};
use crate::rope::cursor_impl::RopeCursor;
use crate::rope::grapheme;
use crate::rope::ropey_api::{
    rope_char, rope_from_str, rope_len_bytes, rope_len_chars, rope_slice, rope_text,
    rope_to_string, slice_to_cow,
};

verus! {

impl TextBuffer for Rope {
    type Cursor<'cursor> = RopeCursor<'cursor>;

    open spec fn text(&self) -> Seq<char> {
        rope_text(*self)
    }

    fn cursor<'cursor>(&'cursor self, position: usize) -> Option<Self::Cursor<'cursor>> {
        if position <= rope_len_chars(self) {
            Some(RopeCursor::at(self, position))
        } else {
            None
        }
    }

    fn slice(&self, range: Range<usize>) -> Option<Cow<'_, str>> {
        Some(slice_to_cow(rope_slice(self, range.start, range.end)))
    }

    fn len(&self) -> usize {
        rope_len_bytes(self)
    }

    fn from_str(s: &str) -> Rope {
        rope_from_str(s)
    }

    fn prev_grapheme_offset(&self, offset: usize) -> Option<usize> {
        let len = rope_len_chars(self);
        let whole = rope_slice(self, 0, len);
        proof {
            assert(rope_text(*self).subrange(0, len as int) =~= rope_text(*self));
        }
        grapheme::prev_grapheme_boundary(&whole, offset)
    }

    fn next_grapheme_offset(&self, offset: usize) -> Option<usize> {
        let len = rope_len_chars(self);
        let whole = rope_slice(self, 0, len);
        proof {
            assert(rope_text(*self).subrange(0, len as int) =~= rope_text(*self));
        }
        grapheme::next_grapheme_boundary(&whole, offset)
    }

    fn prev_codepoint_offset(&self, offset: usize) -> Option<usize> {
        if 0 < offset && offset <= rope_len_chars(self) {
            Some(offset - 1)
        } else {
            None
        }
    }

    fn next_codepoint_offset(&self, offset: usize) -> Option<usize> {
        if offset < rope_len_chars(self) {
            Some(offset + 1)
        } else {
            None
        }
    }

    fn prev_word_offset(&self, offset: usize) -> Option<usize> {
        let ghost t = rope_text(*self);
        let ghost k = offset as int;
        if offset > rope_len_chars(self) {
            return None;
        }
        let mut i = offset;
        let mut passed_alphanumeric = false;
        let ghost mut q: int = k;
        while i > 0
            invariant
                t == rope_text(*self),
                k == offset,
                k <= t.len(),
                0 <= i <= k,
                !passed_alphanumeric ==> no_word_chars(t, i as int, k),
                passed_alphanumeric ==> i < q <= k && all_word_chars(t, i as int, q)
                    && no_word_chars(t, q, k),
            decreases i,
        {
            let c = rope_char(self, i - 1);
            if char_is_alphanumeric(c) {
                if !passed_alphanumeric {
                    proof {
                        q = i as int;
                    }
                }
                passed_alphanumeric = true;
            } else if passed_alphanumeric {
                proof {
                    assert(is_prev_word_start(t, k, i as int));
                }
                return Some(i);
            }
            i -= 1;
        }
        if passed_alphanumeric {
            proof {
                assert(is_prev_word_start(t, k, 0));
            }
            return Some(0);
        }
        proof {
            assert forall|p: int| !is_prev_word_start(t, k, p) by {
                if is_prev_word_start(t, k, p) {
                    let q2 = choose|q2: int|
                        p < q2 <= k && #[trigger] all_word_chars(t, p, q2) && no_word_chars(t, q2, k);
                    assert(is_word_char(t[p]));
                }
            }
        }
        None
    }

    fn next_word_offset(&self, offset: usize) -> Option<usize> {
        let ghost t = rope_text(*self);
        let ghost k = offset as int;
        let len = rope_len_chars(self);
        if offset >= len {
            return None;
        }
        let mut i = offset;
        let mut passed_alphanumeric = false;
        let ghost mut q: int = k;
        while i < len
            invariant
                t == rope_text(*self),
                len == t.len(),
                k == offset,
                k <= i <= len,
                !passed_alphanumeric ==> no_word_chars(t, k, i as int),
                k < len,
                passed_alphanumeric ==> k <= q < i && no_word_chars(t, k, q) && all_word_chars(
                    t,
                    q,
                    i as int,
                ),
            decreases len - i,
        {
            let c = rope_char(self, i);
            if char_is_alphanumeric(c) {
                if !passed_alphanumeric {
                    proof {
                        q = i as int;
                    }
                }
                passed_alphanumeric = true;
            } else if passed_alphanumeric {
                proof {
                    assert(is_next_word_end(t, k, i as int));
                }
                return Some(i);
            }
            i += 1;
        }
        proof {
            if passed_alphanumeric {
                assert(is_next_word_end(t, k, len as int));
            } else {
                assert(all_word_chars(t, len as int, len as int));
                assert(is_next_word_end(t, k, len as int));
            }
        }
        Some(len)
    }

    fn preceding_line_break(&self, offset: usize) -> usize {
        let ghost t = rope_text(*self);
        let mut i = offset;
        while i > 0
            invariant
                t == rope_text(*self),
                offset <= t.len(),
                0 <= i <= offset,
                forall|j: int| i <= j < offset ==> t[j] != '\n',
            decreases i,
        {
            if rope_char(self, i - 1) == '\n' {
                return i;
            }
            i -= 1;
        }
        0
    }

    fn next_line_break(&self, offset: usize) -> usize {
        let ghost t = rope_text(*self);
        let len = rope_len_chars(self);
        let mut i = offset;
        while i < len
            invariant
                t == rope_text(*self),
                len == t.len(),
                offset <= i <= len,
                forall|j: int| offset <= j < i ==> t[j] != '\n',
            decreases len - i,
        {
            if rope_char(self, i) == '\n' {
                return i;
            }
            i += 1;
        }
        len
    }

    fn is_empty(&self) -> bool {
        rope_to_string(self).as_str().is_empty()
    }
}

} // verus!
