//! The parts of `ropey` that the rope code uses, each with the contract that
//! ropey's documentation gives it, stated over the chars a rope holds.
use vstd::prelude::*;
use ropey::iter::Chars;
use ropey::{Rope, RopeSlice};
use std::borrow::Cow;
use crate::utf8::{byte_offset, char_index_of_byte, utf8_len};

verus! {

#[verifier::external_type_specification]
#[verifier::external_body]
pub struct ExRope(Rope);

#[verifier::external_type_specification]
#[verifier::external_body]
pub struct ExRopeSlice<'a>(RopeSlice<'a>);

#[verifier::external_type_specification]
#[verifier::external_body]
pub struct ExRopeChars<'a>(Chars<'a>);

/// The chars a rope holds, in order.
pub uninterp spec fn rope_text(r: Rope) -> Seq<char>;

/// The chars a rope slice holds, in order.
pub uninterp spec fn slice_text(s: RopeSlice) -> Seq<char>;

/// The chars that a rope char iterator has yet to yield, in order.
pub uninterp spec fn chars_remaining(it: Chars) -> Seq<char>;

/// `Rope::from_str`: the rope holds the chars of `text`.
#[verifier::external_body]
pub(crate) fn rope_from_str(text: &str) -> (r: Rope)
    ensures
        rope_text(r) == text@,
{
    Rope::from_str(text)
}

/// `Rope::len_chars`: the number of chars in the rope.
#[verifier::external_body]
pub(crate) fn rope_len_chars(r: &Rope) -> (n: usize)
    ensures
        n == rope_text(*r).len(),
{
    r.len_chars()
}

/// `Rope::len_bytes`: the number of bytes of the rope's UTF-8 encoding.
#[verifier::external_body]
pub(crate) fn rope_len_bytes(r: &Rope) -> (n: usize)
    ensures
        n == utf8_len(rope_text(*r)),
{
    r.len_bytes()
}

/// `Rope::char`: the char at a char index; ropey panics past the last char.
#[verifier::external_body]
pub(crate) fn rope_char(r: &Rope, char_idx: usize) -> (c: char)
    requires
        char_idx < rope_text(*r).len(),
    ensures
        c == rope_text(*r)[char_idx as int],
{
    r.char(char_idx)
}

/// `Rope::slice` over the char range `start..end`; ropey panics on a
/// reversed range or one that ends past the rope.
#[verifier::external_body]
pub(crate) fn rope_slice<'a>(r: &'a Rope, start: usize, end: usize) -> (s: RopeSlice<'a>)
    requires
        start <= end <= rope_text(*r).len(),
    ensures
        slice_text(s) == rope_text(*r).subrange(start as int, end as int),
{
    r.slice(start..end)
}

/// `Rope::remove` of the char range `start..end`; ropey panics on a reversed
/// range or one that ends past the rope.
#[verifier::external_body]
pub(crate) fn rope_remove(r: &mut Rope, start: usize, end: usize)
    requires
        start <= end <= rope_text(*old(r)).len(),
    ensures
        rope_text(*final(r)) == rope_text(*old(r)).subrange(0, start as int) + rope_text(
            *old(r),
        ).subrange(end as int, rope_text(*old(r)).len() as int),
{
    r.remove(start..end)
}

/// `Rope::insert` of `text` at a char index; ropey panics past the end. The
/// result must have a char count that fits in a `usize`.
#[verifier::external_body]
pub(crate) fn rope_insert(r: &mut Rope, char_idx: usize, text: &str)
    requires
        char_idx <= rope_text(*old(r)).len(),
        rope_text(*old(r)).len() + text@.len() <= usize::MAX,
    ensures
        rope_text(*final(r)) == rope_text(*old(r)).subrange(0, char_idx as int) + text@
            + rope_text(*old(r)).subrange(char_idx as int, rope_text(*old(r)).len() as int),
{
    r.insert(char_idx, text)
}

/// `ToString::to_string` through `Rope`'s `Display`: the rope's text.
#[verifier::external_body]
pub(crate) fn rope_to_string(r: &Rope) -> (s: String)
    ensures
        s@ == rope_text(*r),
{
    r.to_string()
}

/// `RopeSlice::len_chars`: the number of chars in the slice.
#[verifier::external_body]
pub(crate) fn slice_len_chars(s: &RopeSlice) -> (n: usize)
    ensures
        n == slice_text(*s).len(),
{
    s.len_chars()
}

/// `RopeSlice::char_to_byte`: the byte index at which a char starts; ropey
/// returns the end for the one-past-the-end char and panics further out.
#[verifier::external_body]
pub(crate) fn slice_char_to_byte(s: &RopeSlice, char_idx: usize) -> (b: usize)
    requires
        char_idx <= slice_text(*s).len(),
    ensures
        b == byte_offset(slice_text(*s), char_idx as int),
{
    s.char_to_byte(char_idx)
}

/// `RopeSlice::byte_to_char`: the index of the char a byte belongs to, the
/// one-past-the-end char for the one-past-the-end byte; ropey panics further out.
#[verifier::external_body]
pub(crate) fn slice_byte_to_char(s: &RopeSlice, byte_idx: usize) -> (c: usize)
    requires
        byte_idx <= utf8_len(slice_text(*s)),
    ensures
        c == char_index_of_byte(slice_text(*s), byte_idx as int),
{
    s.byte_to_char(byte_idx)
}

/// `RopeSlice::slice` over the char range `start..end` of the slice; ropey
/// panics on a reversed range or one that ends past the slice.
#[verifier::external_body]
pub(crate) fn slice_slice<'a>(s: &RopeSlice<'a>, start: usize, end: usize) -> (r: RopeSlice<'a>)
    requires
        start <= end <= slice_text(*s).len(),
    ensures
        slice_text(r) == slice_text(*s).subrange(start as int, end as int),
{
    s.slice(start..end)
}

/// `RopeSlice::chars`: an iterator over all the chars of the slice.
#[verifier::external_body]
pub(crate) fn slice_chars<'a>(s: &RopeSlice<'a>) -> (it: Chars<'a>)
    ensures
        chars_remaining(it) == slice_text(*s),
{
    s.chars()
}

/// `Iterator::next` of ropey's `Chars`: the next char, in order, and `None`
/// once all are yielded.
#[verifier::external_body]
pub(crate) fn chars_next(it: &mut Chars) -> (c: Option<char>)
    ensures
        chars_remaining(*old(it)).len() == 0 ==> c is None && chars_remaining(*final(it))
            == chars_remaining(*old(it)),
        chars_remaining(*old(it)).len() > 0 ==> c == Some(chars_remaining(*old(it))[0])
            && chars_remaining(*final(it)) == chars_remaining(*old(it)).drop_first(),
{
    it.next()
}

/// `String::from` on a rope slice (ropey's `From<RopeSlice> for String`): the
/// slice's text.
#[verifier::external_body]
pub(crate) fn slice_to_string(s: &RopeSlice) -> (r: String)
    ensures
        r@ == slice_text(*s),
{
    String::from(*s)
}

/// `Cow::from` on a rope slice (ropey's `From<RopeSlice> for Cow<str>`): the
/// slice's text, borrowed when it lies in one chunk.
#[verifier::external_body]
pub(crate) fn slice_to_cow<'a>(s: RopeSlice<'a>) -> (r: Cow<'a, str>)
    ensures
        r@ == slice_text(s),
{
    s.into()
}

} // verus!
