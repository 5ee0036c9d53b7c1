use vstd::prelude::*;

pub mod grapheme;

verus! {

} // verus!
