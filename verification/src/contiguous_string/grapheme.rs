//! An iterator over the grapheme clusters of a contiguous string, from both ends.
use vstd::prelude::*;
use crate::segmentation::{
    back_clusters, clusters, cursor_next_boundary, cursor_prev_boundary, grapheme_boundary,
    grapheme_boundary_char, is_backward_walk, is_forward_step, is_forward_walk,
    is_next_boundary_char, is_prev_boundary_char, lemma_backward_walk_reversed,
    lemma_clusters_flatten, lemma_forward_walks_agree, lemma_forward_walks_join,
};
use crate::utf8::{
    byte_offset, char_index_of_byte, is_char_boundary,
    lemma_byte_offset_is_boundary, lemma_byte_offset_mono, lemma_byte_offset_strict,
    lemma_char_boundary_index, lemma_encode_utf8_len, str_slice, utf8_len,
};

verus! {

/// The grapheme clusters of a string, yielded from the front by `next` and
/// from the back by `next_back`, until the two ends meet.
#[derive(Debug)]
pub struct Graphemes<'a> {
    string: &'a str,
    cursor: usize,
    cursor_back: usize,
    is_extended: bool,
}

impl<'a> Graphemes<'a> {
    /// Both byte cursors sit on char boundaries, the front one before the back
    /// one, and each is the end of the string or a grapheme boundary.
    #[verifier::type_invariant]
    spec fn cursors_on_boundaries(&self) -> bool {
        &&& self.cursor <= self.cursor_back
        &&& is_char_boundary(self.string@, self.cursor as int)
        &&& is_char_boundary(self.string@, self.cursor_back as int)
        &&& (self.cursor == 0 || grapheme_boundary(
            self.string@,
            self.cursor as int,
            self.is_extended,
        ))
        &&& (self.cursor_back == utf8_len(self.string@) || grapheme_boundary(
            self.string@,
            self.cursor_back as int,
            self.is_extended,
        ))
    }

    /// The chars of the string.
    pub closed spec fn text(&self) -> Seq<char> {
        self.string@
    }

    /// Whether extended grapheme clusters are selected.
    pub closed spec fn extended(&self) -> bool {
        self.is_extended
    }

    /// Char index of the start of the part yet to be iterated.
    pub closed spec fn front(&self) -> int {
        char_index_of_byte(self.string@, self.cursor as int) as int
    }

    /// Char index of the end of the part yet to be iterated.
    pub closed spec fn back(&self) -> int {
        char_index_of_byte(self.string@, self.cursor_back as int) as int
    }

    /// View the underlying data (the part yet to be iterated) as a slice of the whole string.
    pub fn as_str(&self) -> (s: &'a str)
        ensures
            s@ == self.text().subrange(self.front(), self.back()),
    {
        proof {
            use_type_invariant(self);
        }
        str_slice(self.string, self.cursor, self.cursor_back)
    }

    pub fn new<'b>(s: &'b str, is_extended: bool) -> (g: Graphemes<'b>)
        ensures
            g.text() == s@,
            g.extended() == is_extended,
            g.front() == 0,
            g.back() == s@.len(),
    {
        let len = s.as_bytes().len();
        proof {
            lemma_encode_utf8_len(s@);
            lemma_byte_offset_is_boundary(s@, 0);
            lemma_byte_offset_is_boundary(s@, s@.len() as int);
            crate::utf8::lemma_char_index_of_byte_offset(s@, s@.len() as int);
        }
        Graphemes { string: s, cursor: 0, cursor_back: len, is_extended }
    }

    /// Bounds on the number of graphemes left: at least one while bytes are
    /// left, and at most one per byte.
    pub fn size_hint(&self) -> (r: (usize, Option<usize>))
        ensures
            ({
                let slen = byte_offset(self.text(), self.back()) - byte_offset(
                    self.text(),
                    self.front(),
                );
                r == (if slen < 1 {
                    slen as usize
                } else {
                    1usize
                }, Some(slen as usize))
            }),
    {
        proof {
            use_type_invariant(self);
            lemma_char_boundary_index(self.string@, self.cursor as int);
            lemma_char_boundary_index(self.string@, self.cursor_back as int);
        }
        let slen = self.cursor_back - self.cursor;
        (if slen < 1 {
            slen
        } else {
            1
        }, Some(slen))
    }

    /// Yields the next grapheme cluster from the front.
    pub fn next(&mut self) -> (r: Option<&'a str>)
        ensures
            final(self).text() == old(self).text(),
            final(self).extended() == old(self).extended(),
            final(self).back() == old(self).back(),
            old(self).front() == old(self).back() ==> r is None && final(self).front() == old(
                self,
            ).front(),
            old(self).front() != old(self).back() ==> (r matches Some(g) && is_next_boundary_char(
                old(self).text(),
                old(self).front(),
                final(self).front(),
                old(self).extended(),
            ) && final(self).front() <= old(self).back() && g@ == old(self).text().subrange(
                old(self).front(),
                final(self).front(),
            )),
    {
        proof {
            use_type_invariant(&*self);
        }
        let ghost t = self.string@;
        let ghost ext = self.is_extended;
        let start = self.cursor;
        proof {
            lemma_char_boundary_index(t, start as int);
            lemma_char_boundary_index(t, self.cursor_back as int);
            lemma_byte_offset_is_boundary(t, t.len() as int);
            crate::utf8::lemma_char_index_of_byte_offset(t, t.len() as int);
            lemma_byte_offset_is_boundary(t, char_index_of_byte(t, self.cursor_back as int) as int);
        }
        if start == self.cursor_back {
            return None;
        }
        assert(start < utf8_len(t));
        match cursor_next_boundary(self.string, start, self.is_extended) {
            Ok(Some(next)) => {
                proof {
                    lemma_char_boundary_index(t, next as int);
                    let kf = char_index_of_byte(t, start as int) as int;
                    let kn = char_index_of_byte(t, next as int) as int;
                    let kb = char_index_of_byte(t, self.cursor_back as int) as int;
                    if kn <= kf {
                        lemma_byte_offset_mono(t, kn, kf);
                    }
                    if self.cursor_back < next {
                        assert(self.cursor_back != utf8_len(t));
                    }
                    if kb < kn {
                        lemma_byte_offset_strict(t, kb, kn);
                    }
                    assert forall|j: int| kf < j < kn implies !grapheme_boundary_char(t, j, ext) by {
                        lemma_byte_offset_strict(t, kf, j);
                        lemma_byte_offset_strict(t, j, kn);
                        lemma_byte_offset_is_boundary(t, j);
                    }
                }
                self.cursor = next;
                Some(str_slice(self.string, start, next))
            },
            _ => None,
        }
    }

    /// Yields the next grapheme cluster from the back.
    pub fn next_back(&mut self) -> (r: Option<&'a str>)
        ensures
            final(self).text() == old(self).text(),
            final(self).extended() == old(self).extended(),
            final(self).front() == old(self).front(),
            old(self).front() == old(self).back() ==> r is None && final(self).back() == old(
                self,
            ).back(),
            old(self).front() != old(self).back() ==> (r matches Some(g) && is_prev_boundary_char(
                old(self).text(),
                old(self).back(),
                final(self).back(),
                old(self).extended(),
            ) && old(self).front() <= final(self).back() && g@ == old(self).text().subrange(
                final(self).back(),
                old(self).back(),
            )),
    {
        proof {
            use_type_invariant(&*self);
        }
        let ghost t = self.string@;
        let ghost ext = self.is_extended;
        let end = self.cursor_back;
        proof {
            lemma_char_boundary_index(t, end as int);
            lemma_char_boundary_index(t, self.cursor as int);
        }
        if end == self.cursor {
            return None;
        }
        match cursor_prev_boundary(self.string, end, self.is_extended) {
            Ok(Some(prev)) => {
                proof {
                    lemma_char_boundary_index(t, prev as int);
                    let ke = char_index_of_byte(t, end as int) as int;
                    let kp = char_index_of_byte(t, prev as int) as int;
                    let kf = char_index_of_byte(t, self.cursor as int) as int;
                    if ke <= kp {
                        lemma_byte_offset_mono(t, ke, kp);
                    }
                    if prev < self.cursor {
                        assert(self.cursor != 0);
                    }
                    if kp < kf {
                        lemma_byte_offset_strict(t, kp, kf);
                    }
                    assert forall|j: int| kp < j < ke implies !grapheme_boundary_char(t, j, ext) by {
                        lemma_byte_offset_strict(t, kp, j);
                        lemma_byte_offset_strict(t, j, ke);
                        lemma_byte_offset_is_boundary(t, j);
                    }
                }
                self.cursor_back = prev;
                Some(str_slice(self.string, prev, end))
            },
            _ => None,
        }
    }
}

/// Iterating a `Graphemes` from both ends until they meet yields the clusters
/// that iterating from the front alone yields. `fs` are the front positions of
/// a run of interleaved `next` and `next_back` calls (0 first), `bs` its back
/// positions (the end of the string first), and the two ends met: the last
/// front position is the last back position. `ws` are the positions of a run
/// of `next` alone, from 0 to the end. Then the front positions followed by
/// the back positions in reverse are `ws`, the front clusters followed by the
/// back clusters in reverse are the clusters of `ws`, and those, concatenated,
/// are the string.
pub proof fn lemma_both_ends_meet(
    t: Seq<char>,
    is_extended: bool,
    fs: Seq<int>,
    bs: Seq<int>,
    ws: Seq<int>,
)
    requires
        fs.len() >= 1,
        fs[0] == 0,
        is_forward_walk(t, fs, is_extended),
        bs.len() >= 1,
        bs[0] == t.len(),
        is_backward_walk(t, bs, is_extended),
        fs[fs.len() - 1] == bs[bs.len() - 1],
        ws.len() >= 1,
        ws[0] == 0,
        is_forward_walk(t, ws, is_extended),
        ws[ws.len() - 1] == t.len(),
    ensures
        fs + bs.reverse().drop_first() == ws,
        clusters(t, fs) + back_clusters(t, bs).reverse() == clusters(t, ws),
        clusters(t, ws).flatten() == t,
{
    let rs = bs.reverse();
    lemma_backward_walk_reversed(t, bs, is_extended);
    lemma_forward_walks_join(t, fs, rs, is_extended);
    lemma_forward_walks_agree(t, fs + rs.drop_first(), ws, is_extended);
    assert(clusters(t, ws).flatten() == t.subrange(0, t.len() as int)) by {
        assert forall|i: int| 0 <= i < ws.len() - 1 implies #[trigger] ws[i] <= ws[i + 1]
            <= t.len() by {
            assert(is_forward_step(t, ws, i, is_extended));
        }
        lemma_clusters_flatten(t, ws);
    }
    assert(t.subrange(0, t.len() as int) =~= t);
}

impl<'a> Clone for Graphemes<'a> {
    fn clone(&self) -> (g: Self)
        ensures
            g == *self,
    {
        proof {
            use_type_invariant(self);
        }
        Graphemes {
            string: self.string,
            cursor: self.cursor,
            cursor_back: self.cursor_back,
            is_extended: self.is_extended,
        }
    }
}

} // verus!
