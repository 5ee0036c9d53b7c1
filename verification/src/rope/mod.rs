//! Rope-backed text: grapheme navigation, search and replace, cursors, and
//! version markers.
use vstd::prelude::*;
use ropey::{Rope, RopeSlice};
use crate::api::formatting::Formatting;
use crate::rope::ropey_api::{rope_len_chars, rope_slice, rope_text, slice_len_chars, slice_text};

pub mod ropey_api;
pub mod grapheme;
pub mod search;
pub mod dot;
pub mod cursor_impl;
pub mod buffer_impl;

verus! {

/// A node of a formatted rope: a piece of text with its formatting, its
/// subtrees, and the weight (length) of its left subtree.
pub struct TextNode {
    text: String,
    formatting: Vec<Formatting>,
    left: Option<Box<TextNode>>,
    right: Option<Box<TextNode>>,
    weight: usize,
}

/// The number of chars in a rope slice.
pub fn slice_char_count(slice: &RopeSlice) -> (n: usize)
    ensures
        n == slice_text(*slice).len(),
{
    slice_len_chars(slice)
}

/// The chars `start..end` of a rope, as a slice; `None` when the range is
/// reversed or ends past the rope.
pub fn slice_of_rope<'a>(rope: &'a Rope, start: usize, end: usize) -> (s: Option<RopeSlice<'a>>)
    ensures
        s is Some <==> start <= end <= rope_text(*rope).len(),
        s matches Some(sl) ==> slice_text(sl) == rope_text(*rope).subrange(start as int, end as int),
{
    if start <= end && end <= rope_len_chars(rope) {
        Some(rope_slice(rope, start, end))
    } else {
        None
    }
}

} // verus!
