# gapbuf

A gap buffer: a growable sequence whose free space is kept as a gap inside
the storage, so that insertions and removals clustered near one position
cost little. Every operation is verified with Verus against a model in
which the buffer is a sequence of elements, together with its capacity and
the position of its gap.

- `src/slice.rs`: the storage (`Slice`), its well-formedness, and the moves
  every operation is built from (shifting the gap, reallocating, taking and
  putting elements next to the gap).
- `src/gap_buffer.rs`: `GapBuffer`, its growth policy, insertion, removal,
  retention, draining and resizing.
- `src/range.rs`: `Range` and `RangeMut`, views of a run of elements.
- `src/iter.rs`: `Iter`, `IterMut`, `IntoIter` and `Drain`.
- `src/laws.rs`: properties relating the operations to one another.
- `app/lib.rs`: the `gap_buffer!` macro, and conversion from standard range
  syntax with the bounds checked before `range`, `range_mut` and `drain`.
