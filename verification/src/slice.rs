//! The storage of a gap buffer and the element moves that every operation
//! is built from.
use vstd::prelude::*;
use vstd::std_specs::cmp::PartialEqSpec;

use crate::iter::{Iter, IterMut};
use crate::range::{Range, RangeMut};

verus! {

/// One end of a range of positions.
#[derive(Clone, Copy, Debug, PartialEq, Eq)]
pub enum Bound {
    /// The range includes this position.
    Included(usize),
    /// The range stops short of this position.
    Excluded(usize),
    /// The range reaches the end of the sequence.
    Unbounded,
}

/// First position of a range that starts at `b`.
pub open spec fn start_index(b: Bound) -> int {
    match b {
        Bound::Included(i) => i as int,
        Bound::Excluded(i) => i + 1,
        Bound::Unbounded => 0,
    }
}

/// Position just past the last one of a range that ends at `b`, within a
/// sequence of `len` elements.
pub open spec fn end_index(b: Bound, len: nat) -> int {
    match b {
        Bound::Included(i) => i + 1,
        Bound::Excluded(i) => i as int,
        Bound::Unbounded => len as int,
    }
}

/// The range from `start` to `end` lies within a sequence of `len` elements
/// and does not end before it starts.
pub open spec fn valid_range(start: Bound, end: Bound, len: nat) -> bool {
    0 <= start_index(start) <= end_index(end, len) <= len
}

/// First position and length of the range from `start` to `end` within a
/// sequence of `len` elements.
pub(crate) fn idx_len(start: Bound, end: Bound, len: usize) -> (r: (usize, usize))
    requires
        valid_range(start, end, len as nat),
    ensures
        r.0 == start_index(start),
        r.1 == end_index(end, len as nat) - start_index(start),
{
    let idx = match start {
        Bound::Included(i) => i,
        Bound::Excluded(i) => i + 1,
        Bound::Unbounded => 0,
    };
    let end = match end {
        Bound::Included(i) => i + 1,
        Bound::Excluded(i) => i,
        Bound::Unbounded => len,
    };
    (idx, end - idx)
}

/// Mutable references to the values held by the slots of `s`, which all
/// hold one.
fn refs_of<'a, T>(s: &'a mut [Option<T>]) -> (r: Vec<&'a mut T>)
    requires
        forall|i: int| 0 <= i < old(s)@.len() ==> (#[trigger] old(s)@[i]) is Some,
    ensures
        r@.len() == old(s)@.len(),
        forall|i: int| 0 <= i < r@.len() ==> *(#[trigger] r@[i]) == old(s)@[i]->0,
        final(s)@ == Seq::new(r@.len(), |i: int| Some(*final(r@[i]))),
{
    let mut out: Vec<&'a mut T> = Vec::new();
    let ghost fin = final(s)@;
    let ghost n = old(s)@.len();
    let mut rest: &'a mut [Option<T>] = s;
    assert(fin == final(rest)@);
    assert(Seq::new(out@.len(), |i: int| Some(*final(out@[i]))) + final(rest)@ =~= fin);
    while rest.len() > 0
        invariant
            out@.len() + rest@.len() == n,
            forall|i: int|
                0 <= i < rest@.len() ==> (#[trigger] rest@[i]) == old(s)@[out@.len() + i],
            forall|i: int| 0 <= i < out@.len() ==> *(#[trigger] out@[i]) == old(s)@[i]->0,
            forall|i: int| 0 <= i < n ==> (#[trigger] old(s)@[i]) is Some,
            fin == Seq::new(out@.len(), |i: int| Some(*final(out@[i]))) + final(rest)@,
        decreases rest@.len(),
    {
        let ghost before = out@;
        let (h, t) = rest.split_at_mut(1);
        let o = h.first_mut().unwrap();
        let x = o.as_mut().unwrap();
        let ghost fx = *final(x);
        out.push(x);
        rest = t;
        assert(Seq::new(out@.len(), |i: int| Some(*final(out@[i]))) =~= Seq::new(
            before.len(),
            |i: int| Some(*final(before[i])),
        ).push(Some(fx)));
    }
    assert(has_resolved(rest));
    assert(fin =~= Seq::new(out@.len(), |i: int| Some(*final(out@[i]))));
    out
}

/// Storage of a gap buffer.
///
/// `buf` has one slot per unit of capacity. The elements occupy the slots
/// before `gap` and the last `len - gap` slots; the slots in between form the
/// gap and hold nothing.
pub struct Slice<T> {
    buf: Vec<Option<T>>,
    gap: usize,
    len: usize,
}

impl<T> View for Slice<T> {
    type V = Seq<T>;

    /// The elements in their logical order.
    closed spec fn view(&self) -> Seq<T> {
        Seq::new(self.len as nat, |i: int| self.buf@[self.phys(i)]->0)
    }
}

impl<T> Slice<T> {
    /// Number of slots of the storage.
    pub closed spec fn cap(&self) -> nat {
        self.buf@.len()
    }

    /// Logical position of the gap: the number of elements stored before it.
    pub closed spec fn gap_at(&self) -> nat {
        self.gap as nat
    }

    /// Slot that holds the element of logical index `i`.
    spec fn phys(&self, i: int) -> int {
        if i < self.gap {
            i
        } else {
            i + self.buf@.len() - self.len
        }
    }

    /// Whether slot `k` lies in the gap.
    spec fn in_gap(&self, k: int) -> bool {
        self.gap <= k < self.gap + self.buf@.len() - self.len
    }

    /// The storage is well formed: the gap lies within the elements, and a
    /// slot holds a value exactly when it is outside the gap.
    pub closed spec fn wf(&self) -> bool {
        &&& self.len <= self.buf@.len()
        &&& self.gap <= self.len
        &&& self.buf@.len() <= usize::MAX
        &&& forall|k: int|
            0 <= k < self.buf@.len() ==> (#[trigger] self.buf@[k] is Some <==> !self.in_gap(k))
    }

    /// Construct a new, empty `Slice`.
    pub fn empty() -> (r: Self)
        ensures
            r.wf(),
            r@ == Seq::<T>::empty(),
            r.cap() == 0,
            r.gap_at() == 0,
    {
        let r = Slice { buf: Vec::new(), gap: 0, len: 0 };
        assert(r@ =~= Seq::<T>::empty());
        r
    }

    /// Returns the number of elements.
    pub fn len(&self) -> (r: usize)
        requires
            self.wf(),
        ensures
            r == self@.len(),
    {
        self.len
    }

    /// Returns true if there are no elements.
    pub fn is_empty(&self) -> (r: bool)
        requires
            self.wf(),
        ensures
            r == (self@.len() == 0),
    {
        self.len() == 0
    }

    /// Number of slots.
    pub(crate) fn capacity(&self) -> (r: usize)
        requires
            self.wf(),
        ensures
            r == self.cap(),
    {
        self.buf.len()
    }

    /// Logical position of the gap.
    pub(crate) fn gap(&self) -> (r: usize)
        requires
            self.wf(),
        ensures
            r == self.gap_at(),
    {
        self.gap
    }

    /// Well-formedness facts that callers outside this module need.
    pub proof fn lemma_wf(&self)
        requires
            self.wf(),
        ensures
            self@.len() <= self.cap(),
            self.gap_at() <= self@.len(),
            self.cap() <= usize::MAX,
    {
    }

    fn gap_len(&self) -> (r: usize)
        requires
            self.wf(),
        ensures
            r == self.cap() - self@.len(),
    {
        self.buf.len() - self.len
    }

    fn get_offset(&self, index: usize) -> (r: usize)
        requires
            self.wf(),
            index < self@.len(),
        ensures
            r == self.phys(index as int),
            r < self.cap(),
    {
        index + if index < self.gap {
            0
        } else {
            self.gap_len()
        }
    }

    /// Returns a reference to the element at `index`, or `None` if out of bounds.
    pub fn get(&self, index: usize) -> (r: Option<&T>)
        requires
            self.wf(),
        ensures
            index < self@.len() ==> r == Some(&self@[index as int]),
            index >= self@.len() ==> r is None,
    {
        if self.len <= index {
            None
        } else {
            let o = self.get_offset(index);
            assert(self.buf@[o as int] is Some);
            self.buf[o].as_ref()
        }
    }

    /// Moves the gap one position towards the front.
    fn shift_gap_left(&mut self)
        requires
            old(self).wf(),
            old(self).gap > 0,
        ensures
            final(self).wf(),
            final(self)@ == old(self)@,
            final(self).gap == old(self).gap - 1,
            final(self).cap() == old(self).cap(),
            final(self).len == old(self).len,
    {
        let gl = self.gap_len();
        let src = self.gap - 1;
        let x = self.buf[src].take();
        self.buf.set(src + gl, x);
        self.gap = src;
        assert(self@ =~= old(self)@);
    }

    /// Moves the gap one position towards the back.
    fn shift_gap_right(&mut self)
        requires
            old(self).wf(),
            old(self).gap < old(self).len,
        ensures
            final(self).wf(),
            final(self)@ == old(self)@,
            final(self).gap == old(self).gap + 1,
            final(self).cap() == old(self).cap(),
            final(self).len == old(self).len,
    {
        let gl = self.gap_len();
        let dst = self.gap;
        let x = self.buf[dst + gl].take();
        self.buf.set(dst, x);
        self.gap = dst + 1;
        assert(self@ =~= old(self)@);
    }

    /// Moves the gap so that `gap` elements precede it; the elements keep
    /// their order.
    pub(crate) fn set_gap(&mut self, gap: usize)
        requires
            old(self).wf(),
            gap <= old(self)@.len(),
        ensures
            final(self).wf(),
            final(self)@ == old(self)@,
            final(self).gap_at() == gap,
            final(self).cap() == old(self).cap(),
    {
        if self.gap > gap {
            while self.gap > gap
                invariant
                    self.wf(),
                    self@ == old(self)@,
                    self.len == old(self).len,
                    gap <= self.gap,
                    self.cap() == old(self).cap(),
                decreases self.gap,
            {
                self.shift_gap_left();
            }
        }
        if self.gap < gap {
            while self.gap < gap
                invariant
                    self.wf(),
                    self@ == old(self)@,
                    self.len == old(self).len,
                    gap <= self.len,
                    self.gap <= gap,
                    self.cap() == old(self).cap(),
                decreases gap - self.gap,
            {
                self.shift_gap_right();
            }
        }
    }

    /// Changes the number of slots to `new_cap`, keeping the elements and
    /// the position of the gap: the elements after the gap move to the end
    /// of the new storage.
    pub(crate) fn realloc(&mut self, new_cap: usize)
        requires
            old(self).wf(),
            old(self)@.len() <= new_cap,
        ensures
            final(self).wf(),
            final(self)@ == old(self)@,
            final(self).gap_at() == old(self).gap_at(),
            final(self).cap() == new_cap,
    {
        let old_cap = self.buf.len();
        if old_cap == new_cap {
            return;
        }
        let ghost ob = self.buf@;
        let back = self.len - self.gap;
        let mut nv: Vec<Option<T>> = Vec::with_capacity(new_cap);
        let mut k: usize = 0;
        while k < self.gap
            invariant
                self.gap == old(self).gap,
                self.len == old(self).len,
                self.buf@.len() == ob.len(),
                old(self).wf(),
                ob == old(self).buf@,
                k <= self.gap,
                nv@.len() == k,
                forall|j: int| 0 <= j < k ==> nv@[j] == ob[j],
                forall|j: int| k <= j < ob.len() ==> self.buf@[j] == ob[j],
            decreases self.gap - k,
        {
            let x = self.buf[k].take();
            nv.push(x);
            k = k + 1;
        }
        let ngl = new_cap - self.len;
        let mut j: usize = 0;
        while j < ngl
            invariant
                self.gap == old(self).gap,
                self.len == old(self).len,
                ngl == new_cap - self.len,
                j <= ngl,
                nv@.len() == self.gap + j,
                forall|i: int| 0 <= i < self.gap ==> nv@[i] == ob[i],
                forall|i: int| self.gap <= i < self.gap + j ==> nv@[i] is None,
                forall|i: int| self.gap <= i < ob.len() ==> self.buf@[i] == ob[i],
                self.buf@.len() == ob.len(),
            decreases ngl - j,
        {
            nv.push(None);
            j = j + 1;
        }
        let mut k: usize = old_cap - back;
        while k < old_cap
            invariant
                self.gap == old(self).gap,
                self.len == old(self).len,
                back == self.len - self.gap,
                old_cap == ob.len(),
                old_cap - back <= k <= old_cap,
                self.buf@.len() == ob.len(),
                nv@.len() == new_cap - self.len + self.gap + (k - (old_cap - back)),
                forall|i: int| 0 <= i < self.gap ==> nv@[i] == ob[i],
                forall|i: int| self.gap <= i < new_cap - back ==> nv@[i] is None,
                forall|i: int|
                    new_cap - back <= i < nv@.len() ==> nv@[i] == ob[i - new_cap + old_cap],
                forall|i: int| k <= i < ob.len() ==> self.buf@[i] == ob[i],
                old(self).len <= new_cap,
            decreases old_cap - k,
        {
            let x = self.buf[k].take();
            nv.push(x);
            k = k + 1;
        }
        proof {
            assert forall|i: int| 0 <= i < nv@.len() implies (#[trigger] nv@[i] is Some <==> !(
            self.gap <= i < self.gap + new_cap - self.len)) by {
                if i >= new_cap - back {
                    let oi = i - new_cap + old_cap;
                    assert(old(self).buf@[oi] is Some);
                } else if i < self.gap {
                    assert(old(self).buf@[i] is Some);
                }
            }
        }
        self.buf = nv;
        assert(self@ =~= old(self)@);
    }

    /// Stores `x` as the element just before the gap.
    pub(crate) fn push_at_gap(&mut self, x: T)
        requires
            old(self).wf(),
            old(self)@.len() < old(self).cap(),
        ensures
            final(self).wf(),
            final(self)@ == old(self)@.insert(old(self).gap_at() as int, x),
            final(self).gap_at() == old(self).gap_at() + 1,
            final(self).cap() == old(self).cap(),
    {
        let g = self.gap;
        self.buf.set(g, Some(x));
        self.gap = g + 1;
        self.len = self.len + 1;
        assert(self@ =~= old(self)@.insert(g as int, x));
    }

    /// Stores `x` as the element just after the gap.
    pub(crate) fn push_after_gap(&mut self, x: T)
        requires
            old(self).wf(),
            old(self)@.len() < old(self).cap(),
        ensures
            final(self).wf(),
            final(self)@ == old(self)@.insert(old(self).gap_at() as int, x),
            final(self).gap_at() == old(self).gap_at(),
            final(self).cap() == old(self).cap(),
    {
        let slot = self.gap + self.gap_len() - 1;
        self.buf.set(slot, Some(x));
        self.len = self.len + 1;
        assert(self@ =~= old(self)@.insert(self.gap as int, x));
    }

    /// Takes out the element just before the gap.
    pub(crate) fn pop_before_gap(&mut self) -> (r: T)
        requires
            old(self).wf(),
            old(self).gap_at() > 0,
        ensures
            final(self).wf(),
            r == old(self)@[old(self).gap_at() - 1],
            final(self)@ == old(self)@.remove(old(self).gap_at() - 1),
            final(self).gap_at() == old(self).gap_at() - 1,
            final(self).cap() == old(self).cap(),
    {
        let g = self.gap - 1;
        let x = self.buf[g].take();
        self.gap = g;
        self.len = self.len - 1;
        assert(self@ =~= old(self)@.remove(g as int));
        x.unwrap()
    }

    /// Takes out the element just after the gap.
    pub(crate) fn pop_after_gap(&mut self) -> (r: T)
        requires
            old(self).wf(),
            old(self).gap_at() < old(self)@.len(),
        ensures
            final(self).wf(),
            r == old(self)@[old(self).gap_at() as int],
            final(self)@ == old(self)@.remove(old(self).gap_at() as int),
            final(self).gap_at() == old(self).gap_at(),
            final(self).cap() == old(self).cap(),
    {
        let slot = self.gap + self.gap_len();
        let x = self.buf[slot].take();
        self.len = self.len - 1;
        assert(self@ =~= old(self)@.remove(self.gap as int));
        x.unwrap()
    }

    /// Replaces the element at `index` with `x` and returns the old one.
    pub(crate) fn replace_at(&mut self, index: usize, x: T) -> (r: T)
        requires
            old(self).wf(),
            index < old(self)@.len(),
        ensures
            final(self).wf(),
            r == old(self)@[index as int],
            final(self)@ == old(self)@.update(index as int, x),
            final(self).gap_at() == old(self).gap_at(),
            final(self).cap() == old(self).cap(),
    {
        let o = self.get_offset(index);
        let y = self.buf[o].take();
        self.buf.set(o, Some(x));
        assert(self@ =~= old(self)@.update(index as int, x));
        y.unwrap()
    }

    /// First position and length of the range from `start` to `end`.
    pub(crate) fn to_idx_len(&self, start: Bound, end: Bound) -> (r: (usize, usize))
        requires
            self.wf(),
            valid_range(start, end, self@.len()),
        ensures
            r.0 == start_index(start),
            r.1 == end_index(end, self@.len()) - start_index(start),
    {
        idx_len(start, end, self.len)
    }

    /// Returns a mutable reference to the element at `index`, or `None` if
    /// out of bounds.
    pub fn get_mut(&mut self, index: usize) -> (r: Option<&mut T>)
        requires
            old(self).wf(),
        ensures
            index >= old(self)@.len() ==> r is None && *final(self) == *old(self),
            index < old(self)@.len() ==> r is Some && *r.unwrap() == old(self)@[index as int]
                && final(self).wf() && final(self)@ == old(self)@.update(
                index as int,
                *final(r.unwrap()),
            ) && final(self).gap_at() == old(self).gap_at() && final(self).cap() == old(self).cap(),
    {
        if self.len <= index {
            None
        } else {
            let o = self.get_offset(index);
            self.buf[o].as_mut()
        }
    }

    /// Swaps the elements at positions `a` and `b`.
    pub fn swap(&mut self, a: usize, b: usize)
        requires
            old(self).wf(),
            a < old(self)@.len(),
            b < old(self)@.len(),
        ensures
            final(self).wf(),
            final(self)@ == old(self)@.update(a as int, old(self)@[b as int]).update(
                b as int,
                old(self)@[a as int],
            ),
            final(self).gap_at() == old(self).gap_at(),
            final(self).cap() == old(self).cap(),
    {
        let oa = self.get_offset(a);
        let ob = self.get_offset(b);
        let xa = self.buf[oa].take();
        let xb = self.buf[ob].take();
        self.buf.set(oa, xb);
        self.buf.set(ob, xa);
        assert(self@ =~= old(self)@.update(a as int, old(self)@[b as int]).update(
            b as int,
            old(self)@[a as int],
        ));
    }

    /// Immutable view of the elements from `start` to `end`.
    pub fn range(&self, start: Bound, end: Bound) -> (r: Range<'_, T>)
        requires
            self.wf(),
            valid_range(start, end, self@.len()),
        ensures
            r.wf(),
            r@ == self@.subrange(start_index(start), end_index(end, self@.len())),
    {
        Range::new(self, start, end)
    }

    /// Mutable view of the elements from `start` to `end`. What is written
    /// through it is what the storage holds once it is dropped.
    pub fn range_mut(&mut self, start: Bound, end: Bound) -> (r: RangeMut<'_, T>)
        requires
            old(self).wf(),
            valid_range(start, end, old(self)@.len()),
        ensures
            r.wf(),
            r@ == old(self)@.subrange(start_index(start), end_index(end, old(self)@.len())),
            r.base() == old(self)@,
            r.start_at() == start_index(start),
            r.target() is Some,
            *r.target().unwrap() == *old(self),
            *final(self) == *final(r.target().unwrap()),
    {
        RangeMut::new(self, start, end)
    }

    /// Iterator over references to the elements, front to back.
    pub fn iter(&self) -> (it: Iter<'_, T>)
        requires
            self.wf(),
        ensures
            it.wf(),
            it.items() == self@,
            it.pos() == 0,
    {
        let r = Range::new(self, Bound::Unbounded, Bound::Unbounded);
        assert(self@.subrange(0, self@.len() as int) =~= self@);
        Iter::new(r)
    }

    /// Iterator over mutable references to the elements, front to back.
    /// What is written through them is what the storage holds once they are
    /// dropped.
    pub fn iter_mut(&mut self) -> (it: IterMut<'_, T>)
        requires
            old(self).wf(),
        ensures
            it.remaining().len() == old(self)@.len(),
            forall|i: int|
                0 <= i < it.remaining().len() ==> *(#[trigger] it.remaining()[i]) == old(self)@[i],
            final(self).wf(),
            final(self).gap_at() == old(self).gap_at(),
            final(self).cap() == old(self).cap(),
            final(self)@ == Seq::new(old(self)@.len(), |i: int| *final(it.remaining()[i])),
    {
        let (a, b) = self.as_mut_slices();
        let ghost sa = a@;
        let ghost sb = b@;
        let it = IterMut::new(a, b);
        assert(Seq::new(sa.len(), |i: int| *final(sa[i])) + Seq::new(sb.len(), |i: int| *final(sb[i]))
            =~= Seq::new(old(self)@.len(), |i: int| *final(it.remaining()[i]))) by {
            assert forall|i: int| 0 <= i < old(self)@.len() implies #[trigger] (sa + sb)[i] == if i
                < sa.len() {
                sa[i]
            } else {
                sb[i - sa.len()]
            } by {}
        }
        it
    }

    /// The elements before the gap and the elements after it.
    pub fn as_slices(&self) -> (r: (Vec<&T>, Vec<&T>))
        requires
            self.wf(),
        ensures
            r.0@.len() == self.gap_at(),
            r.1@.len() == self@.len() - self.gap_at(),
            forall|i: int| 0 <= i < r.0@.len() ==> *r.0@[i] == self@[i],
            forall|i: int| 0 <= i < r.1@.len() ==> *r.1@[i] == self@[self.gap_at() + i],
    {
        let mut front: Vec<&T> = Vec::new();
        let mut k: usize = 0;
        while k < self.gap
            invariant
                self.wf(),
                k <= self.gap,
                front@.len() == k,
                forall|i: int| 0 <= i < k ==> *front@[i] == self@[i],
            decreases self.gap - k,
        {
            front.push(self.get(k).unwrap());
            k = k + 1;
        }
        let mut back: Vec<&T> = Vec::new();
        let mut k: usize = self.gap;
        while k < self.len
            invariant
                self.wf(),
                self.gap <= k <= self.len,
                back@.len() == k - self.gap,
                forall|i: int| 0 <= i < back@.len() ==> *back@[i] == self@[self.gap + i],
            decreases self.len - k,
        {
            back.push(self.get(k).unwrap());
            k = k + 1;
        }
        (front, back)
    }

    /// Returns a reference to the element at `index`.
    pub fn index(&self, index: usize) -> (r: &T)
        requires
            self.wf(),
            index < self@.len(),
        ensures
            *r == self@[index as int],
    {
        self.get(index).unwrap()
    }

    /// Returns a mutable reference to the element at `index`.
    pub fn index_mut(&mut self, index: usize) -> (r: &mut T)
        requires
            old(self).wf(),
            index < old(self)@.len(),
        ensures
            *r == old(self)@[index as int],
            final(self).wf(),
            final(self)@ == old(self)@.update(index as int, *final(r)),
            final(self).gap_at() == old(self).gap_at(),
            final(self).cap() == old(self).cap(),
    {
        self.get_mut(index).unwrap()
    }

    /// Mutable references to the elements before the gap and to those after it.
    pub fn as_mut_slices(&mut self) -> (r: (Vec<&mut T>, Vec<&mut T>))
        requires
            old(self).wf(),
        ensures
            r.0@.len() == old(self).gap_at(),
            r.1@.len() == old(self)@.len() - old(self).gap_at(),
            forall|i: int| 0 <= i < r.0@.len() ==> *(#[trigger] r.0@[i]) == old(self)@[i],
            forall|i: int|
                0 <= i < r.1@.len() ==> *(#[trigger] r.1@[i]) == old(self)@[old(self).gap_at() + i],
            final(self).wf(),
            final(self).gap_at() == old(self).gap_at(),
            final(self).cap() == old(self).cap(),
            final(self)@ == Seq::new(r.0@.len(), |i: int| *final(r.0@[i])) + Seq::new(
                r.1@.len(),
                |i: int| *final(r.1@[i]),
            ),
    {
        let g = self.gap;
        let gl = self.gap_len();
        let ghost ob = self.buf@;
        let all = self.buf.as_mut_slice();
        let (front, rest) = all.split_at_mut(g);
        let (hole, back) = rest.split_at_mut(gl);
        proof {
            assert forall|i: int| 0 <= i < front@.len() implies (#[trigger] front@[i]) is Some by {
                assert(ob[i] is Some);
            }
            assert forall|i: int| 0 <= i < back@.len() implies (#[trigger] back@[i]) is Some by {
                assert(ob[g + gl + i] is Some);
            }
        }
        let a = refs_of(front);
        let b = refs_of(back);
        proof {
            assert(has_resolved(hole));
            assert(final(hole)@ == hole@);
        }
        (a, b)
    }
}

impl<T: PartialEq> Slice<T> {
    /// Whether the elements equal those of `other`, one by one and in order.
    pub fn eq(&self, other: &[T]) -> (r: bool)
        requires
            self.wf(),
        ensures
            T::obeys_eq_spec() ==> (r == (self@.len() == other@.len() && forall|i: int|
                0 <= i < self@.len() ==> #[trigger] self@[i].eq_spec(&other@[i]))),
    {
        if self.len != other.len() {
            return false;
        }
        let mut k: usize = 0;
        while k < self.len
            invariant
                self.wf(),
                self@.len() == other@.len(),
                k <= self@.len(),
                T::obeys_eq_spec() ==> forall|i: int|
                    0 <= i < k ==> #[trigger] self@[i].eq_spec(&other@[i]),
            decreases self.len - k,
        {
            let a = self.get(k).unwrap();
            if !a.eq(&other[k]) {
                return false;
            }
            k = k + 1;
        }
        true
    }
}

} // verus!
