//! The UTF-8 layout of a char sequence: how many bytes each char takes, at which
//! byte each char starts, and which char a byte belongs to.
//!
//! Ropes and strings are indexed both by char and by byte; these spec functions
//! are the bridge between the two.
use vstd::prelude::*;

verus! {

/// Number of bytes in the UTF-8 encoding of `c`.
pub open spec fn char_width(c: char) -> nat {
    if (c as u32) < 0x80 {
        1
    } else if (c as u32) < 0x800 {
        2
    } else if (c as u32) < 0x10000 {
        3
    } else {
        4
    }
}

/// Byte index at which char `k` of `s` starts (the UTF-8 length of the first `k` chars).
pub open spec fn byte_offset(s: Seq<char>, k: int) -> nat
    decreases s.len(),
{
    if k <= 0 || s.len() == 0 {
        0
    } else {
        char_width(s[0]) + byte_offset(s.drop_first(), k - 1)
    }
}

/// Number of bytes in the UTF-8 encoding of `s`.
pub open spec fn utf8_len(s: Seq<char>) -> nat {
    byte_offset(s, s.len() as int)
}

/// `b` is the byte index at which some char of `s` starts, or the end of `s`.
pub open spec fn is_char_boundary(s: Seq<char>, b: int) -> bool {
    exists|k: int| 0 <= k <= s.len() && byte_offset(s, k) == b
}

/// The index of the char that byte `b` of the encoding of `s` belongs to;
/// `s.len()` for a byte index at or past the end.
pub open spec fn char_index_of_byte(s: Seq<char>, b: int) -> nat
    decreases s.len(),
{
    if s.len() == 0 || b < char_width(s[0]) {
        0
    } else {
        1 + char_index_of_byte(s.drop_first(), b - char_width(s[0]))
    }
}

/// One more char adds its width.
pub proof fn lemma_byte_offset_step(s: Seq<char>, k: int)
    requires
        0 <= k < s.len(),
    ensures
        byte_offset(s, k + 1) == byte_offset(s, k) + char_width(s[k]),
    decreases s.len(),
{
    assert(byte_offset(s.drop_first(), 0) == 0);
    if k > 0 {
        lemma_byte_offset_step(s.drop_first(), k - 1);
        assert(s.drop_first()[k - 1] == s[k]);
    }
}

/// Byte offsets grow strictly with the char index.
pub proof fn lemma_byte_offset_strict(s: Seq<char>, i: int, j: int)
    requires
        0 <= i < j <= s.len(),
    ensures
        byte_offset(s, i) < byte_offset(s, j),
    decreases j - i,
{
    lemma_byte_offset_step(s, j - 1);
    if i < j - 1 {
        lemma_byte_offset_strict(s, i, j - 1);
    }
}

/// Byte offsets grow with the char index.
pub proof fn lemma_byte_offset_mono(s: Seq<char>, i: int, j: int)
    requires
        0 <= i <= j <= s.len(),
    ensures
        byte_offset(s, i) <= byte_offset(s, j),
{
    if i < j {
        lemma_byte_offset_strict(s, i, j);
    }
}

/// The byte offset of a char index is mapped back to that char index.
pub proof fn lemma_char_index_of_byte_offset(s: Seq<char>, k: int)
    requires
        0 <= k <= s.len(),
    ensures
        char_index_of_byte(s, byte_offset(s, k) as int) == k,
    decreases s.len(),
{
    if s.len() > 0 && k > 0 {
        lemma_char_index_of_byte_offset(s.drop_first(), k - 1);
    }
}

/// A byte index that is a char boundary is the byte offset of the char it belongs to.
pub proof fn lemma_char_boundary_index(s: Seq<char>, b: int)
    requires
        is_char_boundary(s, b),
    ensures
        char_index_of_byte(s, b) <= s.len(),
        byte_offset(s, char_index_of_byte(s, b) as int) == b,
{
    let k = choose|k: int| 0 <= k <= s.len() && byte_offset(s, k) == b;
    lemma_char_index_of_byte_offset(s, k);
}

/// Every byte offset of a char index is a char boundary at most the full length.
pub proof fn lemma_byte_offset_is_boundary(s: Seq<char>, k: int)
    requires
        0 <= k <= s.len(),
    ensures
        is_char_boundary(s, byte_offset(s, k) as int),
        byte_offset(s, k) <= utf8_len(s),
{
    lemma_byte_offset_mono(s, k, s.len() as int);
}

/// The UTF-8 encoding that vstd specifies for `str` has `utf8_len` bytes.
pub proof fn lemma_encode_utf8_len(s: Seq<char>)
    ensures
        vstd::utf8::encode_utf8(s).len() == utf8_len(s),
    decreases s.len(),
{
    if s.len() > 0 {
        lemma_encode_utf8_len(s.drop_first());
        vstd::utf8::char_is_scalar(s[0]);
    }
}

/// `&s[start..end]`: the chars between two char boundaries; std panics
/// elsewhere.
#[verifier::external_body]
pub(crate) fn str_slice<'a>(s: &'a str, start: usize, end: usize) -> (r: &'a str)
    requires
        start <= end,
        is_char_boundary(s@, start as int),
        is_char_boundary(s@, end as int),
    ensures
        r@ == s@.subrange(
            char_index_of_byte(s@, start as int) as int,
            char_index_of_byte(s@, end as int) as int,
        ),
{
    &s[start..end]
}

} // verus!
