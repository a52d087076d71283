//! Read-only views of a contiguous run of a gap buffer's elements.
use vstd::prelude::*;

use crate::iter::{Iter, IterMut, keep_range};
use crate::slice::{Bound, Slice, end_index, idx_len, start_index, valid_range};

verus! {

/// Immutable sub-range of a [`GapBuffer`](crate::GapBuffer): the elements
/// from position `start` to `start + len` of a storage.
pub struct Range<'a, T: 'a> {
    s: Option<&'a Slice<T>>,
    start: usize,
    len: usize,
}

impl<'a, T> View for Range<'a, T> {
    type V = Seq<T>;

    closed spec fn view(&self) -> Seq<T> {
        match self.s {
            Some(s) => s@.subrange(self.start as int, self.start + self.len),
            None => Seq::empty(),
        }
    }
}

impl<'a, T: 'a> Range<'a, T> {
    /// The range lies within a well-formed storage.
    pub closed spec fn wf(&self) -> bool {
        match self.s {
            Some(s) => s.wf() && self.start + self.len <= s@.len(),
            None => self.len == 0,
        }
    }

    /// The range of the elements of `s` from `start` to `end`.
    pub(crate) fn new(s: &'a Slice<T>, start: Bound, end: Bound) -> (r: Self)
        requires
            s.wf(),
            valid_range(start, end, s@.len()),
        ensures
            r.wf(),
            r@ == s@.subrange(start_index(start), end_index(end, s@.len())),
    {
        let (start, len) = s.to_idx_len(start, end);
        Range { s: Some(s), start, len }
    }

    /// Construct a new, empty `Range`.
    pub fn empty() -> (r: Self)
        ensures
            r.wf(),
            r@ == Seq::<T>::empty(),
    {
        Range { s: None, start: 0, len: 0 }
    }

    /// Returns the number of elements in the range.
    pub fn len(&self) -> (r: usize)
        requires
            self.wf(),
        ensures
            r == self@.len(),
    {
        self.len
    }

    /// Returns true if the range contains no elements.
    pub fn is_empty(&self) -> (r: bool)
        requires
            self.wf(),
        ensures
            r == (self@.len() == 0),
    {
        self.len == 0
    }

    /// Returns a reference to the element at `index` of the range, or `None`
    /// if out of bounds.
    pub fn get(&self, index: usize) -> (r: Option<&'a T>)
        requires
            self.wf(),
        ensures
            index < self@.len() ==> r == Some(&self@[index as int]),
            index >= self@.len() ==> r is None,
    {
        if self.len <= index {
            return None;
        }
        match self.s {
            Some(s) => {
                proof {
                    s.lemma_wf();
                }
                s.get(self.start + index)
            },
            None => None,
        }
    }

    /// The sub-range of this range from `start` to `end`.
    pub fn range(&self, start: Bound, end: Bound) -> (r: Range<'a, T>)
        requires
            self.wf(),
            valid_range(start, end, self@.len()),
        ensures
            r.wf(),
            r@ == self@.subrange(start_index(start), end_index(end, self@.len())),
    {
        let (i, n) = idx_len(start, end, self.len);
        proof {
            if let Some(s) = self.s {
                s.lemma_wf();
            }
        }
        let r = Range { s: self.s, start: self.start + i, len: n };
        assert(r@ =~= self@.subrange(i as int, i + n));
        r
    }

    /// Returns a reference to the element at `index` of the range.
    pub fn index(&self, index: usize) -> (r: &'a T)
        requires
            self.wf(),
            index < self@.len(),
        ensures
            *r == self@[index as int],
    {
        self.get(index).unwrap()
    }

    /// Iterator over references to the elements of the range, front to back.
    pub fn iter(&self) -> (it: Iter<'a, T>)
        requires
            self.wf(),
        ensures
            it.wf(),
            it.items() == self@,
            it.pos() == 0,
    {
        Iter::new(self.clone())
    }
}

impl<'a, T> Default for Range<'a, T> {
    fn default() -> (r: Self)
        ensures
            r.wf(),
            r@ == Seq::<T>::empty(),
    {
        Range::empty()
    }
}

impl<'a, T> Clone for Range<'a, T> {
    fn clone(&self) -> (r: Self)
        ensures
            r == *self,
    {
        Range { s: self.s, start: self.start, len: self.len }
    }
}

} // verus!

verus! {

/// Mutable sub-range of a [`GapBuffer`](crate::GapBuffer): the elements from
/// position `start` to `start + len` of a storage that it borrows mutably.
///
/// Changes made through the range reach the borrowed storage: while the
/// range is alive, `base()` is the current content of that storage, and once
/// the range is dropped the storage holds exactly `base()` (see
/// `Slice::range_mut`).
pub struct RangeMut<'a, T: 'a> {
    s: Option<&'a mut Slice<T>>,
    start: usize,
    len: usize,
}

impl<'a, T> View for RangeMut<'a, T> {
    type V = Seq<T>;

    closed spec fn view(&self) -> Seq<T> {
        match self.s {
            Some(s) => (*s)@.subrange(self.start as int, self.start + self.len),
            None => Seq::empty(),
        }
    }
}

impl<'a, T: 'a> RangeMut<'a, T> {
    /// The range lies within a well-formed storage.
    pub closed spec fn wf(&self) -> bool {
        match self.s {
            Some(s) => (*s).wf() && self.start + self.len <= (*s)@.len(),
            None => self.len == 0 && self.start == 0,
        }
    }

    /// The borrowed storage, if any.
    pub closed spec fn target(&self) -> Option<&'a mut Slice<T>> {
        self.s
    }

    /// Current content of the whole borrowed storage.
    pub closed spec fn base(&self) -> Seq<T> {
        match self.s {
            Some(s) => (*s)@,
            None => Seq::empty(),
        }
    }

    /// Position in the storage of the first element of the range.
    pub closed spec fn start_at(&self) -> nat {
        self.start as nat
    }

    /// How the range, the storage it borrows and that storage's content relate.
    pub proof fn lemma_base(&self)
        requires
            self.wf(),
        ensures
            self.target() is Some ==> (*self.target().unwrap()).wf() && (*self.target().unwrap())@
                == self.base(),
            self.start_at() + self@.len() <= self.base().len(),
            self@ == self.base().subrange(
                self.start_at() as int,
                (self.start_at() + self@.len()) as int,
            ),
    {
        assert(self@ =~= self.base().subrange(
            self.start_at() as int,
            (self.start_at() + self@.len()) as int,
        ));
    }

    /// Once the range is dropped, the storage it borrowed holds its current
    /// content.
    pub proof fn lemma_resolved(&self)
        requires
            has_resolved(*self),
        ensures
            self.target() is Some ==> *final(self.target().unwrap()) == *self.target().unwrap(),
    {
        if let Some(s) = self.s {
            assert(has_resolved(self.s));
            assert(has_resolved(s));
        }
    }

    /// The range of the elements of `s` from `start` to `end`.
    pub(crate) fn new(s: &'a mut Slice<T>, start: Bound, end: Bound) -> (r: Self)
        requires
            old(s).wf(),
            valid_range(start, end, old(s)@.len()),
        ensures
            r.wf(),
            r@ == old(s)@.subrange(start_index(start), end_index(end, old(s)@.len())),
            r.base() == old(s)@,
            r.start_at() == start_index(start),
            r.target() is Some,
            *r.target().unwrap() == *old(s),
            *final(s) == *final(r.target().unwrap()),
    {
        let (start, len) = s.to_idx_len(start, end);
        RangeMut { s: Some(s), start, len }
    }

    /// Construct a new, empty `RangeMut`.
    pub fn empty() -> (r: Self)
        ensures
            r.wf(),
            r@ == Seq::<T>::empty(),
            r.target() is None,
    {
        RangeMut { s: None, start: 0, len: 0 }
    }

    /// Returns the number of elements in the range.
    pub fn len(&self) -> (r: usize)
        requires
            self.wf(),
        ensures
            r == self@.len(),
    {
        self.len
    }

    /// Returns true if the range contains no elements.
    pub fn is_empty(&self) -> (r: bool)
        requires
            self.wf(),
        ensures
            r == (self@.len() == 0),
    {
        self.len == 0
    }

    /// Returns a reference to the element at `index` of the range, or `None`
    /// if out of bounds.
    pub fn get(&self, index: usize) -> (r: Option<&T>)
        requires
            self.wf(),
        ensures
            index < self@.len() ==> r == Some(&self@[index as int]),
            index >= self@.len() ==> r is None,
    {
        if self.len <= index {
            return None;
        }
        match &self.s {
            Some(s) => {
                proof {
                    s.lemma_wf();
                }
                s.get(self.start + index)
            },
            None => None,
        }
    }

    /// Returns a mutable reference to the element at `index` of the range,
    /// or `None` if out of bounds.
    pub fn get_mut(&mut self, index: usize) -> (r: Option<&mut T>)
        requires
            old(self).wf(),
        ensures
            index >= old(self)@.len() ==> r is None && *final(self) == *old(self),
            index < old(self)@.len() ==> r is Some && *r.unwrap() == old(self)@[index as int]
                && final(self).wf() && final(self)@ == old(self)@.update(
                index as int,
                *final(r.unwrap()),
            ) && final(self).base() == old(self).base().update(
                old(self).start_at() + index,
                *final(r.unwrap()),
            ) && final(self).start_at() == old(self).start_at() && final(self).target() is Some
                && *final(final(self).target().unwrap()) == *final(old(self).target().unwrap())
                && (*final(self).target().unwrap()).gap_at() == (*old(
                self,
            ).target().unwrap()).gap_at() && (*final(self).target().unwrap()).cap() == (*old(
                self,
            ).target().unwrap()).cap(),
    {
        if self.len <= index {
            return None;
        }
        match &mut self.s {
            Some(s) => {
                proof {
                    s.lemma_wf();
                }
                let i = self.start + index;
                s.get_mut(i)
            },
            None => None,
        }
    }

    /// Returns a reference to the element at `index` of the range.
    pub fn index(&self, index: usize) -> (r: &T)
        requires
            self.wf(),
            index < self@.len(),
        ensures
            *r == self@[index as int],
    {
        self.get(index).unwrap()
    }

    /// Returns a mutable reference to the element at `index` of the range.
    pub fn index_mut(&mut self, index: usize) -> (r: &mut T)
        requires
            old(self).wf(),
            index < old(self)@.len(),
        ensures
            *r == old(self)@[index as int],
            final(self).wf(),
            final(self)@ == old(self)@.update(index as int, *final(r)),
            final(self).base() == old(self).base().update(old(self).start_at() + index, *final(r)),
            final(self).start_at() == old(self).start_at(),
            final(self).target() is Some,
            *final(final(self).target().unwrap()) == *final(old(self).target().unwrap()),
            (*final(self).target().unwrap()).gap_at() == (*old(self).target().unwrap()).gap_at(),
            (*final(self).target().unwrap()).cap() == (*old(self).target().unwrap()).cap(),
    {
        self.get_mut(index).unwrap()
    }

    /// Swaps the elements at positions `a` and `b` of the range.
    pub fn swap(&mut self, a: usize, b: usize)
        requires
            old(self).wf(),
            a < old(self)@.len(),
            b < old(self)@.len(),
        ensures
            final(self).wf(),
            final(self)@ == old(self)@.update(a as int, old(self)@[b as int]).update(
                b as int,
                old(self)@[a as int],
            ),
            final(self).base() == old(self).base().update(
                old(self).start_at() + a,
                old(self)@[b as int],
            ).update(old(self).start_at() + b, old(self)@[a as int]),
            final(self).start_at() == old(self).start_at(),
            final(self).target() is Some,
            *final(final(self).target().unwrap()) == *final(old(self).target().unwrap()),
            (*final(self).target().unwrap()).gap_at() == (*old(self).target().unwrap()).gap_at(),
            (*final(self).target().unwrap()).cap() == (*old(self).target().unwrap()).cap(),
    {
        match &mut self.s {
            Some(s) => {
                proof {
                    s.lemma_wf();
                }
                let i = self.start + a;
                let j = self.start + b;
                s.swap(i, j);
            },
            None => {},
        }
        proof {
            self.lemma_base();
        }
        assert(self@ =~= old(self)@.update(a as int, old(self)@[b as int]).update(
            b as int,
            old(self)@[a as int],
        ));
    }

    /// Immutable view of the elements of this range from `start` to `end`.
    pub fn range(&self, start: Bound, end: Bound) -> (r: Range<'_, T>)
        requires
            self.wf(),
            valid_range(start, end, self@.len()),
        ensures
            r.wf(),
            r@ == self@.subrange(start_index(start), end_index(end, self@.len())),
    {
        let (i, n) = idx_len(start, end, self.len);
        match &self.s {
            Some(s) => {
                proof {
                    s.lemma_wf();
                }
                let r = Range::new(
                    &**s,
                    Bound::Included(self.start + i),
                    Bound::Excluded(self.start + i + n),
                );
                assert(r@ =~= self@.subrange(i as int, i + n));
                r
            },
            None => Range::empty(),
        }
    }

    /// Iterator over references to the elements of the range, front to back.
    pub fn iter(&self) -> (it: Iter<'_, T>)
        requires
            self.wf(),
        ensures
            it.wf(),
            it.items() == self@,
            it.pos() == 0,
    {
        match &self.s {
            Some(s) => {
                proof {
                    s.lemma_wf();
                }
                let r = Range::new(
                    &**s,
                    Bound::Included(self.start),
                    Bound::Excluded(self.start + self.len),
                );
                Iter::new(r)
            },
            None => Iter::new(Range::empty()),
        }
    }

    /// Iterator over mutable references to the elements of the range, front
    /// to back. Once they are dropped, the borrowed storage holds what was
    /// written through them in place of the range, and is otherwise unchanged.
    pub fn iter_mut(self) -> (it: IterMut<'a, T>)
        requires
            self.wf(),
        ensures
            it.remaining().len() == self@.len(),
            forall|i: int|
                0 <= i < it.remaining().len() ==> *(#[trigger] it.remaining()[i]) == self@[i],
            self.target() is Some ==> (*final(self.target().unwrap())).wf() && (*final(
                self.target().unwrap())).gap_at() == (*self.target().unwrap()).gap_at() && (*final(
                self.target().unwrap())).cap() == (*self.target().unwrap()).cap() && (*final(
                self.target().unwrap()))@ == Seq::new(
                self.base().len(),
                |k: int|
                    if self.start_at() <= k < self.start_at() + self@.len() {
                        *final(it.remaining()[k - self.start_at()])
                    } else {
                        self.base()[k]
                    },
            ),
    {
        let start = self.start;
        let len = self.len;
        match self.s {
            Some(s) => {
                let ghost base = s@;
                let (a, b) = s.as_mut_slices();
                let ghost sa = a@;
                let ghost sb = b@;
                let mut all = a;
                let mut b = b;
                all.append(&mut b);
                let ghost sall = all@;
                assert(sall == sa + sb);
                let kept = keep_range(all, start, len);
                let it = IterMut::new(kept, Vec::new());
                let ghost fs = Seq::new(sall.len(), |i: int| *final(sall[i]));
                assert(Seq::new(sa.len(), |i: int| *final(sa[i])) + Seq::new(
                    sb.len(),
                    |i: int| *final(sb[i]),
                ) =~= fs);
                assert(fs =~= Seq::new(
                    base.len(),
                    |k: int|
                        if start <= k < start + len {
                            *final(it.remaining()[k - start])
                        } else {
                            base[k]
                        },
                )) by {
                    assert forall|k: int| 0 <= k < base.len() implies #[trigger] fs[k] == (
                    if start <= k < start + len {
                        *final(it.remaining()[k - start])
                    } else {
                        base[k]
                    }) by {
                        if start <= k < start + len {
                            assert(kept@[k - start] == sall[k]);
                        } else if k < sa.len() {
                            assert(sall[k] == sa[k]);
                        } else {
                            assert(sall[k] == sb[k - sa.len()]);
                        }
                    }
                }
                it
            },
            None => IterMut::new(Vec::new(), Vec::new()),
        }
    }
}

impl<'a, T> Default for RangeMut<'a, T> {
    fn default() -> (r: Self)
        ensures
            r.wf(),
            r@ == Seq::<T>::empty(),
            r.target() is None,
    {
        RangeMut::empty()
    }
}

} // verus!
