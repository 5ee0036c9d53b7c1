use vstd::prelude::*;

pub mod asynchonously_editable_text_buffer;
pub mod edit_operations;
pub mod formatting;
pub mod text_buffer;
pub mod text_buffer_cursor;

verus! {

} // verus!
