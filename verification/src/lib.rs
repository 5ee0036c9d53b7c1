use vstd::prelude::*;

pub mod api;
pub mod utf8;
pub mod segmentation;
pub mod rope;
pub mod contiguous_string;

verus! {
}
