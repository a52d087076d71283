//! A gap buffer: a growable sequence that keeps its free space as a gap
//! inside the storage, so that insertions and removals clustered near one
//! position are cheap.
use vstd::prelude::*;

pub mod compare;
pub mod gap_buffer;
pub mod iter;
pub mod laws;
pub mod range;
pub mod slice;

pub use gap_buffer::GapBuffer;
pub use iter::{Drain, IntoIter, Iter, IterMut};
pub use range::{Range, RangeMut};
pub use slice::{Bound, Slice};

verus! {

} // verus!
