# text_buffer

Text-buffer building blocks over `ropey` ropes, verified with Verus.

- `src/api/`: the interfaces — `TextBuffer` (a text addressed by char
  offsets), `TextBufferCursor`, `AsynchonouslyEditableTextBuffer`,
  `Formattable`, and the `EditOp` and `Formatting` enums.
- `src/rope/`: the rope implementation — grapheme boundaries and a grapheme
  iterator (`grapheme.rs`), plain-text search and batched search-and-replace
  (`search.rs`), `TextBuffer`/`TextBufferCursor` for `Rope`
  (`buffer_impl.rs`, `cursor_impl.rs`), version markers (`dot.rs`), and the
  contracts of the ropey functions used (`ropey_api.rs`).
- `src/contiguous_string/`: a double-ended grapheme iterator over a `&str`.
- `src/segmentation.rs`: grapheme boundaries from `unicode-segmentation`.
- `src/utf8.rs`: the char/byte layout of UTF-8 text.
- `app/`: serde and strum derives for `Dot` and `EditOp`, on copies of those
  types with conversions both ways.
- `tests/`: runtime tests.

Offsets into ropes are char indices throughout; `TextBuffer::len` is a byte
count.
