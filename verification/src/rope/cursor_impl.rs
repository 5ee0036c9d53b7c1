//! A cursor over the chars of a `Rope`.
use vstd::prelude::*;
use ropey::Rope;
use crate::api::text_buffer_cursor::TextBufferCursor;
use crate::rope::ropey_api::{rope_char, rope_len_chars, rope_text};
use crate::utf8::char_width;

verus! {

/// A cursor at a char offset of a rope.
#[derive(Debug)]
pub struct RopeCursor<'a> {
    rope: &'a Rope,
    cursor: usize,
}

impl<'a> RopeCursor<'a> {
    /// Create a new cursor, at the start of the rope.
    pub fn new(rope: &'a Rope) -> (c: Self)
        ensures
            c.cursor_text() == rope_text(*rope),
            c.position() == 0,
    {
        RopeCursor { rope, cursor: 0 }
    }

    /// Create a cursor at the given char offset of the rope.
    pub(crate) fn at(rope: &'a Rope, cursor: usize) -> (c: Self)
        ensures
            c.cursor_text() == rope_text(*rope),
            c.position() == cursor,
    {
        RopeCursor { rope, cursor }
    }
}

impl<'cursor> TextBufferCursor<'cursor, Rope> for RopeCursor<'cursor> {
    closed spec fn cursor_text(&self) -> Seq<char> {
        rope_text(*self.rope)
    }

    closed spec fn position(&self) -> int {
        self.cursor as int
    }

    fn set(&mut self, position: usize) {
        self.cursor = position;
    }

    fn pos(&self) -> usize {
        self.cursor
    }

    fn is_boundary(&self) -> bool {
        self.cursor <= rope_len_chars(self.rope)
    }

    fn prev(&mut self) -> Option<usize> {
        if self.cursor == 0 {
            return None;
        }
        let len = rope_len_chars(self.rope);
        self.cursor = if self.cursor <= len {
            self.cursor - 1
        } else {
            len
        };
        Some(self.cursor)
    }

    fn next(&mut self) -> Option<usize> {
        if self.cursor < rope_len_chars(self.rope) {
            self.cursor = self.cursor + 1;
            Some(self.cursor)
        } else {
            None
        }
    }

    fn peek_next_codepoint(&self) -> Option<char> {
        if self.cursor < rope_len_chars(self.rope) {
            Some(rope_char(self.rope, self.cursor))
        } else {
            None
        }
    }

    fn prev_codepoint(&mut self) -> Option<char> {
        if let Some(offset) = self.prev() {
            Some(rope_char(self.rope, offset))
        } else {
            None
        }
    }

    fn next_codepoint(&mut self) -> Option<char> {
        let current_codepoint = self.peek_next_codepoint();
        self.next();
        current_codepoint
    }

    fn at_or_next(&mut self) -> Option<usize> {
        if self.is_boundary() {
            Some(self.cursor)
        } else {
            self.next()
        }
    }

    fn at_or_prev(&mut self) -> Option<usize> {
        if self.is_boundary() {
            Some(self.cursor)
        } else {
            self.prev()
        }
    }
}

/// The length of a UTF-8 encoded char, as its first byte announces it.
pub open spec fn utf8_len_announced(b: u8) -> nat {
    if b < 0x80 {
        1
    } else if b < 0xe0 {
        2
    } else if b < 0xf0 {
        3
    } else {
        4
    }
}

pub fn len_utf8_from_first_byte(b: u8) -> (n: usize)
    ensures
        n == utf8_len_announced(b),
{
    match b {
        b if b < 0x80 => 1,
        b if b < 0xe0 => 2,
        b if b < 0xf0 => 3,
        _ => 4,
    }
}

/// For every char, the length that the first byte of its UTF-8 encoding
/// announces is the length of that encoding.
pub proof fn lemma_len_utf8_from_first_byte(c: char)
    ensures
        utf8_len_announced(vstd::utf8::encode_scalar(c as u32)[0]) == char_width(c),
        vstd::utf8::encode_scalar(c as u32).len() == char_width(c),
{
    let v = c as u32;
    vstd::utf8::char_is_scalar(c);
    if v < 0x80 {
        let b = vstd::utf8::leading_byte_width_1(v);
        assert(b < 0x80) by (bit_vector)
            requires
                b == (v & 0x7F) as u8,
                v < 0x80,
        ;
    } else if v < 0x800 {
        let b = vstd::utf8::leading_byte_width_2(v);
        assert(0x80 <= b < 0xe0) by (bit_vector)
            requires
                b == 0xC0 | ((v >> 6) & 0x1F) as u8,
        ;
    } else if v < 0x10000 {
        let b = vstd::utf8::leading_byte_width_3(v);
        assert(0xe0 <= b < 0xf0) by (bit_vector)
            requires
                b == 0xE0 | ((v >> 12) & 0x0F) as u8,
        ;
    } else {
        let b = vstd::utf8::leading_byte_width_4(v);
        assert(0xf0 <= b) by (bit_vector)
            requires
                b == 0xF0 | ((v >> 18) & 0x7) as u8,
        ;
    }
}

} // verus!
