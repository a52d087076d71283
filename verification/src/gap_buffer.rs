//! The growable gap buffer.
use vstd::prelude::*;
use vstd::std_specs::cmp::PartialEqSpec;

use crate::iter::{Drain, IntoIter, Iter, IterMut};
use crate::range::{Range, RangeMut};
use crate::slice::{Bound, Slice, end_index, start_index, valid_range};

verus! {

/// Capacity after making room for `additional` more elements: unchanged when
/// the room is there; otherwise exactly `len + additional` when `exact`, or
/// the larger of twice the old capacity (saturating) and `len + additional`.
pub open spec fn reserved_capacity(len: nat, cap: nat, additional: nat, exact: bool) -> nat {
    if len + additional <= cap {
        cap
    } else if exact {
        len + additional
    } else {
        let doubled: nat = if 2 * cap <= usize::MAX {
            2 * cap
        } else {
            usize::MAX as nat
        };
        if doubled >= len + additional {
            doubled
        } else {
            len + additional
        }
    }
}

/// The sequence left by `swap_remove(i)` on `s` with the gap at `g`: the
/// element next to the gap (just before it when `i` precedes the gap, just
/// after it otherwise) is moved into position `i`, and its old place closes.
pub open spec fn swap_removed<T>(s: Seq<T>, i: int, g: int) -> Seq<T> {
    if i < g {
        s.update(i, s[g - 1]).remove(g - 1)
    } else {
        s.update(i, s[g]).remove(g)
    }
}

/// The elements of `s` whose entry in `keep` is true, in their order.
pub open spec fn filtered<T>(s: Seq<T>, keep: Seq<bool>) -> Seq<T>
    decreases s.len(),
{
    if s.len() == 0 {
        Seq::empty()
    } else {
        let rest = filtered(s.drop_last(), keep.drop_last());
        if keep[s.len() - 1] {
            rest.push(s.last())
        } else {
            rest
        }
    }
}

/// Position of the last `false` in `keep`, or -1 if there is none.
pub open spec fn last_dropped(keep: Seq<bool>) -> int
    decreases keep.len(),
{
    if keep.len() == 0 {
        -1
    } else if !keep.last() {
        keep.len() - 1
    } else {
        last_dropped(keep.drop_last())
    }
}

/// Where `retain` leaves the gap that was at `g`, keeping the elements of
/// `s` marked in `keep`: where the last removal closed up, that is after the
/// elements kept before the last element dropped; at `g` if none is dropped.
pub open spec fn retained_gap<T>(s: Seq<T>, keep: Seq<bool>, g: nat) -> int {
    let j = last_dropped(keep);
    if j < 0 {
        g as int
    } else {
        filtered(s.take(j), keep.take(j)).len() as int
    }
}

proof fn lemma_last_dropped_push(keep: Seq<bool>, b: bool)
    ensures
        -1 <= last_dropped(keep) < keep.len(),
        last_dropped(keep.push(b)) == if b {
            last_dropped(keep)
        } else {
            keep.len() as int
        },
    decreases keep.len(),
{
    assert(keep.push(b).drop_last() =~= keep);
    if keep.len() > 0 {
        lemma_last_dropped_push(keep.drop_last(), true);
    }
}

/// Filtering a sequence extended by one element extends the result by that
/// element exactly when it is kept.
pub proof fn lemma_filtered_push<T>(s: Seq<T>, keep: Seq<bool>, x: T, b: bool)
    requires
        s.len() == keep.len(),
    ensures
        filtered(s.push(x), keep.push(b)) == if b {
            filtered(s, keep).push(x)
        } else {
            filtered(s, keep)
        },
{
    assert(s.push(x).drop_last() =~= s);
    assert(keep.push(b).drop_last() =~= keep);
}

/// Filtering never lengthens a sequence.
pub proof fn lemma_filtered_len<T>(s: Seq<T>, keep: Seq<bool>)
    ensures
        filtered(s, keep).len() <= s.len(),
    decreases s.len(),
{
    if s.len() > 0 {
        lemma_filtered_len(s.drop_last(), keep.drop_last());
    }
}

/// Whether dropping a value of type `T` runs any code, as
/// `std::mem::needs_drop` reports it. Its documentation makes the answer a
/// hint that may be `true` where nothing needs dropping, so no clause states
/// it.
#[verifier::external_body]
fn needs_drop<T>() -> bool {
    std::mem::needs_drop::<T>()
}

/// Dynamic array that allows efficient insertion and deletion operations
/// clustered near the same location.
pub struct GapBuffer<T>(Slice<T>);

impl<T> View for GapBuffer<T> {
    type V = Seq<T>;

    closed spec fn view(&self) -> Seq<T> {
        self.0@
    }
}

impl<T> GapBuffer<T> {
    /// The buffer is well formed.
    pub closed spec fn wf(&self) -> bool {
        self.0.wf()
    }

    /// Number of elements the buffer holds without growing.
    pub closed spec fn cap(&self) -> nat {
        self.0.cap()
    }

    /// Logical position of the gap.
    pub closed spec fn gap_at(&self) -> nat {
        self.0.gap_at()
    }

    /// The storage of the buffer, through which its elements are read.
    pub fn as_slice(&self) -> (r: &Slice<T>)
        requires
            self.wf(),
        ensures
            r.wf(),
            r@ == self@,
            r.cap() == self.cap(),
            r.gap_at() == self.gap_at(),
    {
        &self.0
    }

    /// Constructs a new, empty `GapBuffer<T>`.
    ///
    /// The gap buffer will not allocate until elements are pushed onto it.
    pub fn new() -> (r: Self)
        ensures
            r.wf(),
            r@ == Seq::<T>::empty(),
            r.cap() == 0,
            r.gap_at() == 0,
    {
        GapBuffer(Slice::empty())
    }

    /// Constructs a new, empty `GapBuffer<T>` with the specified capacity.
    pub fn with_capacity(capacity: usize) -> (r: Self)
        ensures
            r.wf(),
            r@ == Seq::<T>::empty(),
            r.cap() == capacity,
            r.gap_at() == 0,
    {
        let mut buf = GapBuffer::new();
        buf.reserve_exact(capacity);
        buf
    }

    /// Returns the number of elements the `GapBuffer<T>` can hold without reallocating.
    pub fn capacity(&self) -> (r: usize)
        requires
            self.wf(),
        ensures
            r == self.cap(),
    {
        self.0.capacity()
    }

    /// Returns the number of elements in the buffer.
    pub fn len(&self) -> (r: usize)
        requires
            self.wf(),
        ensures
            r == self@.len(),
    {
        self.0.len()
    }

    /// Returns true if the buffer contains no elements.
    pub fn is_empty(&self) -> (r: bool)
        requires
            self.wf(),
        ensures
            r == (self@.len() == 0),
    {
        self.0.is_empty()
    }

    /// Reserves capacity for at least `additional` more elements. The
    /// collection may reserve more space to avoid frequent reallocations.
    /// Does nothing if capacity is already sufficient.
    pub fn reserve(&mut self, additional: usize)
        requires
            old(self).wf(),
            old(self)@.len() + additional <= usize::MAX,
        ensures
            final(self).wf(),
            final(self)@ == old(self)@,
            final(self).gap_at() == old(self).gap_at(),
            final(self).cap() == reserved_capacity(
                old(self)@.len(),
                old(self).cap(),
                additional as nat,
                false,
            ),
    {
        self.reserve_as(additional, false);
    }

    /// Reserves the minimum capacity for exactly `additional` more elements.
    /// Does nothing if the capacity is already sufficient.
    pub fn reserve_exact(&mut self, additional: usize)
        requires
            old(self).wf(),
            old(self)@.len() + additional <= usize::MAX,
        ensures
            final(self).wf(),
            final(self)@ == old(self)@,
            final(self).gap_at() == old(self).gap_at(),
            final(self).cap() == reserved_capacity(
                old(self)@.len(),
                old(self).cap(),
                additional as nat,
                true,
            ),
    {
        self.reserve_as(additional, true);
    }

    fn reserve_as(&mut self, additional: usize, exact: bool)
        requires
            old(self).wf(),
            old(self)@.len() + additional <= usize::MAX,
        ensures
            final(self).wf(),
            final(self)@ == old(self)@,
            final(self).gap_at() == old(self).gap_at(),
            final(self).cap() == reserved_capacity(
                old(self)@.len(),
                old(self).cap(),
                additional as nat,
                exact,
            ),
    {
        proof {
            self.0.lemma_wf();
        }
        let len = self.0.len();
        let old_cap = self.0.capacity();
        let new_cap = len + additional;
        if new_cap <= old_cap {
            return;
        }
        let new_cap = if exact {
            new_cap
        } else {
            let doubled = if old_cap <= usize::MAX / 2 {
                old_cap * 2
            } else {
                usize::MAX
            };
            if doubled >= new_cap {
                doubled
            } else {
                new_cap
            }
        };
        self.0.realloc(new_cap);
    }

    /// Shrinks the capacity of the `GapBuffer<T>` as much as possible.
    pub fn shrink_to_fit(&mut self)
        requires
            old(self).wf(),
        ensures
            final(self).wf(),
            final(self)@ == old(self)@,
            final(self).cap() == old(self)@.len(),
            final(self).gap_at() == old(self)@.len(),
    {
        let len = self.0.len();
        self.0.set_gap(len);
        self.0.realloc(len);
    }

    /// Sets the gap offset of the `GapBuffer<T>`; the elements stay as they are.
    pub fn set_gap(&mut self, gap: usize)
        requires
            old(self).wf(),
            gap <= old(self)@.len(),
        ensures
            final(self).wf(),
            final(self)@ == old(self)@,
            final(self).gap_at() == gap,
            final(self).cap() == old(self).cap(),
    {
        self.0.set_gap(gap);
    }

    /// Returns the gap offset of the `GapBuffer<T>`.
    pub fn gap(&self) -> (r: usize)
        requires
            self.wf(),
        ensures
            r == self.gap_at(),
    {
        self.0.gap()
    }

    fn set_gap_with_reserve(&mut self, gap: usize, additional: usize)
        requires
            old(self).wf(),
            gap <= old(self)@.len(),
            old(self)@.len() + additional <= usize::MAX,
        ensures
            final(self).wf(),
            final(self)@ == old(self)@,
            final(self).gap_at() == gap,
            final(self).cap() == reserved_capacity(
                old(self)@.len(),
                old(self).cap(),
                additional as nat,
                false,
            ),
    {
        self.reserve(additional);
        self.set_gap(gap);
    }

    /// Facts that hold of every well-formed buffer: the elements fit in the
    /// capacity and the gap lies within the elements.
    pub proof fn lemma_wf(&self)
        requires
            self.wf(),
        ensures
            self@.len() <= self.cap(),
            self.gap_at() <= self@.len(),
            self.cap() <= usize::MAX,
    {
        self.0.lemma_wf();
    }

    /// Inserts an element at position `index` within the buffer, shifting
    /// the elements after it.
    pub fn insert(&mut self, index: usize, element: T)
        requires
            old(self).wf(),
            index <= old(self)@.len(),
            old(self)@.len() < usize::MAX,
        ensures
            final(self).wf(),
            final(self)@ == old(self)@.insert(index as int, element),
            final(self).gap_at() == index + 1,
            final(self).cap() == reserved_capacity(old(self)@.len(), old(self).cap(), 1, false),
    {
        proof {
            self.0.lemma_wf();
        }
        if self.0.gap() != index || self.0.len() == self.0.capacity() {
            self.set_gap_with_reserve(index, 1);
        }
        self.0.push_at_gap(element);
    }

    /// Inserts the elements of `items`, in order, starting at position `index`.
    pub fn insert_iter(&mut self, index: usize, items: Vec<T>)
        requires
            old(self).wf(),
            index <= old(self)@.len(),
            old(self)@.len() + items@.len() <= usize::MAX,
        ensures
            final(self).wf(),
            final(self)@ == old(self)@.take(index as int) + items@ + old(self)@.skip(index as int),
            items@.len() == 0 ==> final(self).gap_at() == old(self).gap_at() && final(self).cap()
                == old(self).cap(),
            items@.len() > 0 ==> final(self).gap_at() == index + items@.len() && final(self).cap()
                == reserved_capacity(
                old(self)@.len(),
                old(self).cap(),
                items@.len(),
                false,
            ),
    {
        let n = items.len();
        if n == 0 {
            assert(old(self)@.take(index as int) + items@ + old(self)@.skip(index as int) =~= old(
                self,
            )@);
            return;
        }
        self.set_gap_with_reserve(index, n);
        let ghost s = items@;
        let ghost mid = self@;
        let ghost cap = self.cap();
        let mut pos = index;
        for value in it: items
            invariant
                self.wf(),
                it.seq() == s,
                self.gap_at() == pos,
                pos == index + it.index(),
                self@ == mid.take(index as int) + s.take(it.index() as int) + mid.skip(
                    index as int,
                ),
                mid.len() + s.len() <= cap,
                index <= mid.len(),
                self.cap() == cap,
        {
            proof {
                self.0.lemma_wf();
            }
            self.0.push_at_gap(value);
            pos = pos + 1;
        }
    }

    /// Appends an element to the back of the buffer.
    pub fn push_back(&mut self, value: T)
        requires
            old(self).wf(),
            old(self)@.len() < usize::MAX,
        ensures
            final(self).wf(),
            final(self)@ == old(self)@.push(value),
            final(self).gap_at() == old(self)@.len() + 1,
            final(self).cap() == reserved_capacity(old(self)@.len(), old(self).cap(), 1, false),
    {
        let len = self.0.len();
        self.insert(len, value);
        assert(old(self)@.insert(len as int, value) =~= old(self)@.push(value));
    }

    /// Prepends an element to the buffer.
    pub fn push_front(&mut self, value: T)
        requires
            old(self).wf(),
            old(self)@.len() < usize::MAX,
        ensures
            final(self).wf(),
            final(self)@ == seq![value] + old(self)@,
            final(self).gap_at() == 0,
            final(self).cap() == reserved_capacity(old(self)@.len(), old(self).cap(), 1, false),
    {
        proof {
            self.0.lemma_wf();
        }
        if self.0.gap() != 0 || self.0.len() == self.0.capacity() {
            self.set_gap_with_reserve(0, 1);
        }
        self.0.push_after_gap(value);
        assert(old(self)@.insert(0, value) =~= seq![value] + old(self)@);
    }

    /// Removes the element at `index` and returns it; the element next to
    /// the gap takes its place (see `swap_removed`).
    pub fn swap_remove(&mut self, index: usize) -> (r: T)
        requires
            old(self).wf(),
            index < old(self)@.len(),
        ensures
            final(self).wf(),
            r == old(self)@[index as int],
            final(self)@ == swap_removed(old(self)@, index as int, old(self).gap_at() as int),
            final(self)@.len() == old(self)@.len() - 1,
            index < old(self).gap_at() ==> forall|k: int|
                0 <= k < old(self)@.len() - 1 ==> #[trigger] final(self)@[k] == if k == index
                    && index < old(self).gap_at() - 1 {
                    old(self)@[old(self).gap_at() - 1]
                } else if k < old(self).gap_at() - 1 {
                    old(self)@[k]
                } else {
                    old(self)@[k + 1]
                },
            old(self).gap_at() <= index ==> forall|k: int|
                0 <= k < old(self)@.len() - 1 ==> #[trigger] final(self)@[k] == if k == index - 1
                    && old(self).gap_at() < index {
                    old(self)@[old(self).gap_at() as int]
                } else if k < old(self).gap_at() {
                    old(self)@[k]
                } else {
                    old(self)@[k + 1]
                },
            final(self).gap_at() == (if index < old(self).gap_at() {
                old(self).gap_at() - 1
            } else {
                old(self).gap_at() as int
            }),
            final(self).cap() == old(self).cap(),
    {
        proof {
            self.0.lemma_wf();
        }
        let g = self.0.gap();
        if index < g {
            let last = self.0.pop_before_gap();
            if index == g - 1 {
                last
            } else {
                self.0.replace_at(index, last)
            }
        } else {
            let first = self.0.pop_after_gap();
            if index == g {
                first
            } else {
                self.0.replace_at(index - 1, first)
            }
        }
    }

    /// Removes the element at `index` and returns it, shifting the elements
    /// after it.
    pub fn remove(&mut self, index: usize) -> (r: T)
        requires
            old(self).wf(),
            index < old(self)@.len(),
        ensures
            final(self).wf(),
            r == old(self)@[index as int],
            final(self)@ == old(self)@.remove(index as int),
            final(self).gap_at() == index,
            final(self).cap() == old(self).cap(),
    {
        if self.0.gap() <= index {
            self.0.set_gap(index);
            self.0.pop_after_gap()
        } else {
            self.0.set_gap(index + 1);
            self.0.pop_before_gap()
        }
    }

    /// Clears the buffer, removing all values. The capacity is unchanged.
    pub fn clear(&mut self)
        requires
            old(self).wf(),
        ensures
            final(self).wf(),
            final(self)@ == Seq::<T>::empty(),
            final(self).gap_at() == 0,
            final(self).cap() == old(self).cap(),
    {
        proof {
            self.lemma_wf();
        }
        self.truncate(0);
        assert(self@ =~= Seq::<T>::empty());
    }

    /// Shortens the buffer, keeping the first `len` elements and dropping
    /// the rest. Has no effect on the elements if `len` is not less than the
    /// current length. When `len` equals the length and dropping a `T` runs
    /// no code, the gap moves to the end; otherwise it stays.
    pub fn truncate(&mut self, len: usize)
        requires
            old(self).wf(),
        ensures
            final(self).wf(),
            final(self).cap() == old(self).cap(),
            len < old(self)@.len() ==> final(self)@ == old(self)@.take(len as int)
                && final(self).gap_at() == len,
            len == old(self)@.len() ==> final(self)@ == old(self)@ && (final(self).gap_at()
                == old(self).gap_at() || final(self).gap_at() == len),
            len > old(self)@.len() ==> final(self)@ == old(self)@ && final(self).gap_at()
                == old(self).gap_at(),
    {
        if len > self.0.len() {
            return;
        }
        if !needs_drop::<T>() && self.0.gap() < len {
            self.0.set_gap(len);
        }
        let ghost g1 = self.gap_at();
        while len < self.0.len()
            invariant
                self.wf(),
                self.cap() == old(self).cap(),
                len <= self@.len() <= old(self)@.len(),
                self@ == old(self)@.take(self@.len() as int),
                self@.len() < old(self)@.len() ==> self.gap_at() == self@.len(),
                self@.len() == old(self)@.len() ==> self.gap_at() == g1,
                g1 == old(self).gap_at() || g1 == len,
            decreases self@.len(),
        {
            let index = self.0.len() - 1;
            self.remove(index);
        }
        assert(old(self)@.take(old(self)@.len() as int) =~= old(self)@);
    }

    /// Removes the first element and returns it, or `None` if the buffer is empty.
    pub fn pop_front(&mut self) -> (r: Option<T>)
        requires
            old(self).wf(),
        ensures
            final(self).wf(),
            final(self).cap() == old(self).cap(),
            old(self)@.len() == 0 ==> r is None && final(self)@ == old(self)@ && final(self).gap_at()
                == old(self).gap_at(),
            old(self)@.len() > 0 ==> r == Some(old(self)@[0]) && final(self)@ == old(
                self,
            )@.drop_first() && final(self).gap_at() == 0,
    {
        let len = self.0.len();
        if len == 0 {
            None
        } else {
            let v = self.remove(0);
            assert(old(self)@.remove(0) =~= old(self)@.drop_first());
            Some(v)
        }
    }

    /// Removes the last element and returns it, or `None` if the buffer is empty.
    pub fn pop_back(&mut self) -> (r: Option<T>)
        requires
            old(self).wf(),
        ensures
            final(self).wf(),
            final(self).cap() == old(self).cap(),
            old(self)@.len() == 0 ==> r is None && final(self)@ == old(self)@ && final(self).gap_at()
                == old(self).gap_at(),
            old(self)@.len() > 0 ==> r == Some(old(self)@.last()) && final(self)@ == old(
                self,
            )@.drop_last() && final(self).gap_at() == old(self)@.len() - 1,
    {
        let len = self.0.len();
        if len == 0 {
            None
        } else {
            let v = self.remove(len - 1);
            assert(old(self)@.remove(len - 1) =~= old(self)@.drop_last());
            Some(v)
        }
    }

    /// Returns a reference to the element at `index`, or `None` if out of bounds.
    pub fn get(&self, index: usize) -> (r: Option<&T>)
        requires
            self.wf(),
        ensures
            index < self@.len() ==> r == Some(&self@[index as int]),
            index >= self@.len() ==> r is None,
    {
        self.0.get(index)
    }

    /// Returns a mutable reference to the element at `index`, or `None` if
    /// out of bounds.
    pub fn get_mut(&mut self, index: usize) -> (r: Option<&mut T>)
        requires
            old(self).wf(),
        ensures
            index >= old(self)@.len() ==> r is None && *final(self) == *old(self),
            index < old(self)@.len() ==> r is Some && *r.unwrap() == old(self)@[index as int]
                && final(self).wf() && final(self)@ == old(self)@.update(
                index as int,
                *final(r.unwrap()),
            ) && final(self).gap_at() == old(self).gap_at() && final(self).cap() == old(self).cap(),
    {
        self.0.get_mut(index)
    }

    /// Swaps the elements at positions `a` and `b`.
    pub fn swap(&mut self, a: usize, b: usize)
        requires
            old(self).wf(),
            a < old(self)@.len(),
            b < old(self)@.len(),
        ensures
            final(self).wf(),
            final(self)@ == old(self)@.update(a as int, old(self)@[b as int]).update(
                b as int,
                old(self)@[a as int],
            ),
            final(self).gap_at() == old(self).gap_at(),
            final(self).cap() == old(self).cap(),
    {
        self.0.swap(a, b)
    }

    /// Immutable view of the elements from `start` to `end`.
    pub fn range(&self, start: Bound, end: Bound) -> (r: Range<'_, T>)
        requires
            self.wf(),
            valid_range(start, end, self@.len()),
        ensures
            r.wf(),
            r@ == self@.subrange(start_index(start), end_index(end, self@.len())),
    {
        self.0.range(start, end)
    }

    /// Mutable view of the elements from `start` to `end`. What is written
    /// through it is what the buffer holds once it is dropped.
    pub fn range_mut(&mut self, start: Bound, end: Bound) -> (r: RangeMut<'_, T>)
        requires
            old(self).wf(),
            valid_range(start, end, old(self)@.len()),
        ensures
            r.wf(),
            r@ == old(self)@.subrange(start_index(start), end_index(end, old(self)@.len())),
            r.base() == old(self)@,
            r.start_at() == start_index(start),
            r.target() is Some,
            (*r.target().unwrap()).wf(),
            (*r.target().unwrap()).gap_at() == old(self).gap_at(),
            (*r.target().unwrap()).cap() == old(self).cap(),
            final(self)@ == (*final(r.target().unwrap()))@,
            final(self).wf() == (*final(r.target().unwrap())).wf(),
            final(self).cap() == (*final(r.target().unwrap())).cap(),
            final(self).gap_at() == (*final(r.target().unwrap())).gap_at(),
    {
        self.0.range_mut(start, end)
    }

    /// Iterator over references to the elements, front to back.
    pub fn iter(&self) -> (it: Iter<'_, T>)
        requires
            self.wf(),
        ensures
            it.wf(),
            it.items() == self@,
            it.pos() == 0,
    {
        self.0.iter()
    }

    /// Iterator over mutable references to the elements, front to back.
    /// What is written through them is what the buffer holds once they are
    /// dropped.
    pub fn iter_mut(&mut self) -> (it: IterMut<'_, T>)
        requires
            old(self).wf(),
        ensures
            it.remaining().len() == old(self)@.len(),
            forall|i: int|
                0 <= i < it.remaining().len() ==> *(#[trigger] it.remaining()[i]) == old(self)@[i],
            final(self).wf(),
            final(self).gap_at() == old(self).gap_at(),
            final(self).cap() == old(self).cap(),
            final(self)@ == Seq::new(old(self)@.len(), |i: int| *final(it.remaining()[i])),
    {
        self.0.iter_mut()
    }

    /// The elements before the gap and the elements after it.
    pub fn as_slices(&self) -> (r: (Vec<&T>, Vec<&T>))
        requires
            self.wf(),
        ensures
            r.0@.len() == self.gap_at(),
            r.1@.len() == self@.len() - self.gap_at(),
            forall|i: int| 0 <= i < r.0@.len() ==> *r.0@[i] == self@[i],
            forall|i: int| 0 <= i < r.1@.len() ==> *r.1@[i] == self@[self.gap_at() + i],
    {
        self.0.as_slices()
    }

    /// Mutable references to the elements before the gap and to those after it.
    pub fn as_mut_slices(&mut self) -> (r: (Vec<&mut T>, Vec<&mut T>))
        requires
            old(self).wf(),
        ensures
            r.0@.len() == old(self).gap_at(),
            r.1@.len() == old(self)@.len() - old(self).gap_at(),
            forall|i: int| 0 <= i < r.0@.len() ==> *(#[trigger] r.0@[i]) == old(self)@[i],
            forall|i: int|
                0 <= i < r.1@.len() ==> *(#[trigger] r.1@[i]) == old(self)@[old(self).gap_at() + i],
            final(self).wf(),
            final(self).gap_at() == old(self).gap_at(),
            final(self).cap() == old(self).cap(),
            final(self)@ == Seq::new(r.0@.len(), |i: int| *final(r.0@[i])) + Seq::new(
                r.1@.len(),
                |i: int| *final(r.1@[i]),
            ),
    {
        self.0.as_mut_slices()
    }

    /// Moves the buffer into an iterator that yields its elements front to back.
    pub fn into_iter(self) -> (it: IntoIter<T>)
        requires
            self.wf(),
        ensures
            it.wf(),
            it@ == self@,
    {
        IntoIter::new(self)
    }

    /// Removes the elements from `start` to `end` and returns them, in
    /// order, as an iterator. The elements are removed at once, whether or
    /// not the iterator is consumed.
    pub fn drain(&mut self, start: Bound, end: Bound) -> (r: Drain<T>)
        requires
            old(self).wf(),
            valid_range(start, end, old(self)@.len()),
        ensures
            final(self).wf(),
            r.wf(),
            r@ == old(self)@.subrange(start_index(start), end_index(end, old(self)@.len())),
            final(self)@ == old(self)@.subrange(0, start_index(start)) + old(self)@.subrange(
                end_index(end, old(self)@.len()),
                old(self)@.len() as int,
            ),
            final(self).cap() == old(self).cap(),
            start_index(start) < end_index(end, old(self)@.len()) ==> final(self).gap_at()
                == start_index(start),
            start_index(start) == end_index(end, old(self)@.len()) ==> final(self).gap_at()
                == old(self).gap_at(),
    {
        let (idx, len) = self.0.to_idx_len(start, end);
        let ghost old_s = self@;
        let mut removed: GapBuffer<T> = GapBuffer::with_capacity(len);
        let mut k: usize = 0;
        while k < len
            invariant
                self.wf(),
                removed.wf(),
                k <= len,
                idx + len <= old_s.len(),
                old_s == old(self)@,
                self.cap() == old(self).cap(),
                removed.cap() == len,
                removed@ == old_s.subrange(idx as int, idx + k),
                self@ == old_s.subrange(0, idx as int) + old_s.subrange(idx + k, old_s.len() as int),
                k > 0 ==> self.gap_at() == idx,
                k == 0 ==> self.gap_at() == old(self).gap_at(),
            decreases len - k,
        {
            proof {
                removed.lemma_wf();
            }
            let v = self.remove(idx);
            removed.push_back(v);
            k = k + 1;
            assert(removed@ =~= old_s.subrange(idx as int, idx + k));
            assert(self@ =~= old_s.subrange(0, idx as int) + old_s.subrange(
                idx + k,
                old_s.len() as int,
            ));
        }
        Drain::new(removed)
    }

    /// Retains only the elements for which `f` returns true, in their order.
    /// `f` is called once on each element, front to back.
    pub fn retain<F: Fn(&T) -> bool>(&mut self, f: F)
        requires
            old(self).wf(),
            forall|x: &T| f.requires((x,)),
        ensures
            final(self).wf(),
            final(self).cap() == old(self).cap(),
            final(self)@.len() <= old(self)@.len(),
            exists|keep: Seq<bool>|
                #![trigger filtered(old(self)@, keep)]
                keep.len() == old(self)@.len() && (forall|i: int|
                    0 <= i < keep.len() ==> f.ensures((&old(self)@[i],), #[trigger] keep[i]))
                    && final(self)@ == filtered(old(self)@, keep) && final(self).gap_at()
                    == retained_gap(old(self)@, keep, old(self).gap_at()),
    {
        let ghost old_s = self@;
        let ghost mut keep: Seq<bool> = Seq::empty();
        let mut n: usize = 0;
        while n < self.0.len()
            invariant
                self.wf(),
                self.cap() == old(self).cap(),
                old_s == old(self)@,
                forall|x: &T| f.requires((x,)),
                keep.len() <= old_s.len(),
                forall|i: int| 0 <= i < keep.len() ==> f.ensures((&old_s[i],), #[trigger] keep[i]),
                n == filtered(old_s.take(keep.len() as int), keep).len(),
                self.gap_at() == retained_gap(old_s, keep, old(self).gap_at()),
                self@ == filtered(old_s.take(keep.len() as int), keep) + old_s.skip(
                    keep.len() as int,
                ),
            decreases self@.len() - n,
        {
            let ghost k = keep.len() as int;
            let x = self.0.get(n).unwrap();
            assert(*x == old_s[k]);
            let b = f(x);
            proof {
                assert(old_s.take(k + 1) =~= old_s.take(k).push(old_s[k]));
                lemma_filtered_push(old_s.take(k), keep, old_s[k], b);
                lemma_last_dropped_push(keep, b);
                let j = last_dropped(keep);
                if b && j >= 0 {
                    assert(keep.push(b).take(j) =~= keep.take(j));
                }
                if !b {
                    assert(keep.push(b).take(k) =~= keep);
                }
                keep = keep.push(b);
            }
            if b {
                n = n + 1;
                assert(self@ =~= filtered(old_s.take(keep.len() as int), keep) + old_s.skip(
                    keep.len() as int,
                ));
            } else {
                self.remove(n);
                assert(self@ =~= filtered(old_s.take(keep.len() as int), keep) + old_s.skip(
                    keep.len() as int,
                ));
            }
        }
        proof {
            assert(old_s.take(old_s.len() as int) =~= old_s);
            lemma_filtered_len(old_s, keep);
        }
    }

    /// Appends the elements of `items`, in order, to the back of the buffer.
    pub fn extend(&mut self, items: Vec<T>)
        requires
            old(self).wf(),
            old(self)@.len() + items@.len() <= usize::MAX,
        ensures
            final(self).wf(),
            final(self)@ == old(self)@ + items@,
            items@.len() == 0 ==> final(self).gap_at() == old(self).gap_at() && final(self).cap()
                == old(self).cap(),
            items@.len() > 0 ==> final(self).gap_at() == old(self)@.len() + items@.len()
                && final(self).cap() == reserved_capacity(
                old(self)@.len(),
                old(self).cap(),
                items@.len(),
                false,
            ),
    {
        let len = self.0.len();
        self.insert_iter(len, items);
        assert(old(self)@.take(len as int) =~= old(self)@);
        assert(old(self)@.skip(len as int) =~= Seq::<T>::empty());
        assert(old(self)@.take(len as int) + items@ + old(self)@.skip(len as int) =~= old(self)@
            + items@);
    }

    /// A buffer holding the elements of `items`, in order, with no spare
    /// capacity and the gap at the end.
    pub fn from_iter(items: Vec<T>) -> (r: Self)
        ensures
            r.wf(),
            r@ == items@,
            r.cap() == items@.len(),
            r.gap_at() == items@.len(),
    {
        let mut buf = GapBuffer::new();
        assert(items@.len() == items.len());
        buf.extend(items);
        buf
    }

    /// Returns a reference to the element at `index`.
    pub fn index(&self, index: usize) -> (r: &T)
        requires
            self.wf(),
            index < self@.len(),
        ensures
            *r == self@[index as int],
    {
        self.0.get(index).unwrap()
    }

    /// Returns a mutable reference to the element at `index`.
    pub fn index_mut(&mut self, index: usize) -> (r: &mut T)
        requires
            old(self).wf(),
            index < old(self)@.len(),
        ensures
            *r == old(self)@[index as int],
            final(self).wf(),
            final(self)@ == old(self)@.update(index as int, *final(r)),
            final(self).gap_at() == old(self).gap_at(),
            final(self).cap() == old(self).cap(),
    {
        self.0.get_mut(index).unwrap()
    }
}

impl<T: Clone> GapBuffer<T> {
    /// Resizes the buffer in place so that its length is `new_len`: extra
    /// elements are dropped from the back, missing ones are clones of
    /// `value` pushed at the back.
    pub fn resize(&mut self, new_len: usize, value: T)
        requires
            old(self).wf(),
        ensures
            final(self).wf(),
            final(self)@.len() == new_len,
            new_len <= old(self)@.len() ==> final(self)@ == old(self)@.take(new_len as int),
            new_len > old(self)@.len() ==> final(self)@.take(old(self)@.len() as int) == old(self)@,
            forall|i: int|
                old(self)@.len() <= i < new_len ==> cloned(value, #[trigger] final(self)@[i]),
            new_len < old(self)@.len() ==> final(self).gap_at() == new_len && final(self).cap()
                == old(self).cap(),
            new_len == old(self)@.len() ==> final(self).gap_at() == old(self).gap_at()
                && final(self).cap() == old(self).cap(),
            new_len > old(self)@.len() ==> final(self).gap_at() == new_len && final(self).cap()
                == reserved_capacity(
                old(self)@.len(),
                old(self).cap(),
                (new_len - old(self)@.len()) as nat,
                false,
            ),
    {
        let old_len = self.0.len();
        if new_len < old_len {
            self.truncate(new_len);
        }
        if new_len > old_len {
            self.reserve(new_len - old_len);
            let ghost cap = self.cap();
            while self.0.len() < new_len
                invariant
                    self.wf(),
                    self.cap() == cap,
                    new_len <= cap,
                    old_len <= self@.len() <= new_len,
                    self@.take(old_len as int) == old(self)@,
                    old_len == old(self)@.len(),
                    forall|i: int| old_len <= i < self@.len() ==> cloned(value, #[trigger] self@[i]),
                    self@.len() > old_len ==> self.gap_at() == self@.len(),
                    self@.len() == old_len ==> self.gap_at() == old(self).gap_at(),
                decreases new_len - self@.len(),
            {
                let c = value.clone();
                let ghost before = self@;
                self.push_back(c);
                assert(self@.take(old_len as int) =~= before.take(old_len as int));
            }
        }
    }

    /// A buffer holding clones of the elements of this one, in order, with
    /// no spare capacity and the gap at the end.
    pub fn clone(&self) -> (r: Self)
        requires
            self.wf(),
        ensures
            r.wf(),
            r@.len() == self@.len(),
            forall|i: int| 0 <= i < self@.len() ==> cloned(self@[i], #[trigger] r@[i]),
            r.cap() == self@.len(),
            r.gap_at() == self@.len(),
    {
        let n = self.0.len();
        let mut items: Vec<T> = Vec::new();
        let mut k: usize = 0;
        while k < n
            invariant
                self.wf(),
                n == self@.len(),
                k <= n,
                items@.len() == k,
                forall|i: int| 0 <= i < k ==> cloned(self@[i], #[trigger] items@[i]),
            decreases n - k,
        {
            let x = self.0.get(k).unwrap();
            items.push(x.clone());
            k = k + 1;
        }
        GapBuffer::from_iter(items)
    }
}

impl<T: Copy> GapBuffer<T> {
    /// Appends copies of the elements of `items`, in order, to the back of
    /// the buffer.
    pub fn extend_from_slice(&mut self, items: &[T])
        requires
            old(self).wf(),
            old(self)@.len() + items@.len() <= usize::MAX,
        ensures
            final(self).wf(),
            final(self)@ == old(self)@ + items@,
            items@.len() == 0 ==> final(self).gap_at() == old(self).gap_at() && final(self).cap()
                == old(self).cap(),
            items@.len() > 0 ==> final(self).gap_at() == old(self)@.len() + items@.len()
                && final(self).cap() == reserved_capacity(
                old(self)@.len(),
                old(self).cap(),
                items@.len(),
                false,
            ),
    {
        let mut v: Vec<T> = Vec::new();
        let mut k: usize = 0;
        while k < items.len()
            invariant
                k <= items@.len(),
                v@ == items@.take(k as int),
            decreases items@.len() - k,
        {
            v.push(items[k]);
            k = k + 1;
            assert(v@ =~= items@.take(k as int));
        }
        assert(items@.take(items@.len() as int) =~= items@);
        self.extend(v);
    }
}

impl<T: PartialEq> GapBuffer<T> {
    /// Whether the elements equal those of `other`, one by one and in order.
    pub fn eq(&self, other: &[T]) -> (r: bool)
        requires
            self.wf(),
        ensures
            T::obeys_eq_spec() ==> (r == (self@.len() == other@.len() && forall|i: int|
                0 <= i < self@.len() ==> #[trigger] self@[i].eq_spec(&other@[i]))),
    {
        self.0.eq(other)
    }

    /// Whether the elements equal those of `other`, one by one and in order,
    /// whatever the gaps and capacities of the two buffers.
    pub fn eq_buffer(&self, other: &GapBuffer<T>) -> (r: bool)
        requires
            self.wf(),
            other.wf(),
        ensures
            T::obeys_eq_spec() ==> (r == (self@.len() == other@.len() && forall|i: int|
                0 <= i < self@.len() ==> #[trigger] self@[i].eq_spec(&other@[i]))),
    {
        let n = self.0.len();
        if n != other.0.len() {
            return false;
        }
        let mut k: usize = 0;
        while k < n
            invariant
                self.wf(),
                other.wf(),
                n == self@.len(),
                self@.len() == other@.len(),
                k <= n,
                T::obeys_eq_spec() ==> forall|i: int|
                    0 <= i < k ==> #[trigger] self@[i].eq_spec(&other@[i]),
            decreases n - k,
        {
            let a = self.0.get(k).unwrap();
            let b = other.0.get(k).unwrap();
            if !a.eq(b) {
                return false;
            }
            k = k + 1;
        }
        true
    }
}

impl<T> Default for GapBuffer<T> {
    fn default() -> (r: Self)
        ensures
            r.wf(),
            r@ == Seq::<T>::empty(),
            r.cap() == 0,
            r.gap_at() == 0,
    {
        GapBuffer::new()
    }
}

} // verus!
