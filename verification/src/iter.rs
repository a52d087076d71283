//! Iterators over the elements of a gap buffer.
use vstd::prelude::*;
use vstd::std_specs::vec::axiom_vec_has_resolved;

use crate::gap_buffer::GapBuffer;
use crate::range::Range;

verus! {

/// Iterator over references to the elements of a range, front to back.
pub struct Iter<'a, T: 'a> {
    r: Range<'a, T>,
    idx: usize,
}

impl<'a, T: 'a> Iter<'a, T> {
    /// All the elements the iterator walks over, those already yielded included.
    pub closed spec fn items(&self) -> Seq<T> {
        self.r@
    }

    /// Number of elements already yielded.
    pub closed spec fn pos(&self) -> nat {
        self.idx as nat
    }

    /// The iterator is well formed.
    pub closed spec fn wf(&self) -> bool {
        self.r.wf() && self.idx <= self.r@.len()
    }

    /// An iterator over the elements of `r`.
    pub(crate) fn new(r: Range<'a, T>) -> (it: Self)
        requires
            r.wf(),
        ensures
            it.wf(),
            it.items() == r@,
            it.pos() == 0,
    {
        Iter { r, idx: 0 }
    }

    /// Yields the next element, or `None` once all have been yielded.
    pub fn next(&mut self) -> (r: Option<&'a T>)
        requires
            old(self).wf(),
        ensures
            final(self).wf(),
            final(self).items() == old(self).items(),
            old(self).pos() < old(self).items().len() ==> r == Some(
                &old(self).items()[old(self).pos() as int],
            ) && final(self).pos() == old(self).pos() + 1,
            old(self).pos() == old(self).items().len() ==> r is None && final(self).pos()
                == old(self).pos(),
    {
        if self.idx == self.r.len() {
            None
        } else {
            let i = self.idx;
            self.idx = i + 1;
            self.r.get(i)
        }
    }

    /// The exact number of elements left to yield, as lower and upper bound.
    pub fn size_hint(&self) -> (r: (usize, Option<usize>))
        requires
            self.wf(),
        ensures
            r.0 == self.items().len() - self.pos(),
            r.1 == Some(r.0),
    {
        let len = self.r.len() - self.idx;
        (len, Some(len))
    }
}

/// The elements of `s` from last to first.
pub open spec fn backwards<A>(s: Seq<A>) -> Seq<A> {
    Seq::new(s.len(), |i: int| s[s.len() - 1 - i])
}

/// Iterator over mutable references to the elements of a range, front to
/// back. What is written through the references it yields is what the
/// borrowed buffer holds once they are all dropped.
pub struct IterMut<'a, T: 'a> {
    rev: Vec<&'a mut T>,
}

impl<'a, T: 'a> IterMut<'a, T> {
    /// The references not yet yielded, in the order they will be yielded.
    pub closed spec fn remaining(&self) -> Seq<&'a mut T> {
        backwards(self.rev@)
    }

    /// An iterator yielding the references of `front`, then those of `back`
    /// (each one, or one that reads and writes the same place).
    pub(crate) fn new(front: Vec<&'a mut T>, back: Vec<&'a mut T>) -> (it: Self)
        ensures
            it.remaining().len() == front@.len() + back@.len(),
            forall|i: int|
                0 <= i < it.remaining().len() ==> *(#[trigger] it.remaining()[i]) == *(front@
                    + back@)[i] && *final(it.remaining()[i]) == *final((front@ + back@)[i]),
    {
        let ghost orig = front@ + back@;
        let mut all = front;
        let mut back = back;
        all.append(&mut back);
        let mut rev: Vec<&'a mut T> = Vec::new();
        while all.len() > 0
            invariant
                all@.len() + rev@.len() == orig.len(),
                forall|i: int| 0 <= i < all@.len() ==> #[trigger] all@[i] == orig[i],
                forall|i: int|
                    0 <= i < rev@.len() ==> *(#[trigger] rev@[i]) == *orig[orig.len() - 1 - i]
                        && *final(rev@[i]) == *final(orig[orig.len() - 1 - i]),
            decreases all@.len(),
        {
            let x = all.pop().unwrap();
            rev.push(x);
        }
        IterMut { rev }
    }

    /// Once the iterator is dropped, the places its unyielded references
    /// point to keep their values.
    pub proof fn lemma_resolved(&self)
        requires
            has_resolved(*self),
        ensures
            forall|i: int|
                0 <= i < self.remaining().len() ==> *final(#[trigger] self.remaining()[i])
                    == *self.remaining()[i],
    {
        broadcast use axiom_vec_has_resolved;

        assert forall|i: int| 0 <= i < self.remaining().len() implies *final(#[trigger] self.remaining()[i]) == *self.remaining()[i] by {
            let j = self.rev@.len() - 1 - i;
            assert(self.remaining()[i] == self.rev@[j]);
            assert(has_resolved(self.rev));
            assert(has_resolved(self.rev@[j]));
        }
    }

    /// Yields a mutable reference to the next element, or `None` once all
    /// have been yielded.
    pub fn next(&mut self) -> (r: Option<&'a mut T>)
        ensures
            old(self).remaining().len() == 0 ==> r is None && final(self).remaining() == old(
                self,
            ).remaining(),
            old(self).remaining().len() > 0 ==> r == Some(old(self).remaining()[0])
                && final(self).remaining() == old(self).remaining().drop_first(),
    {
        let ghost r0 = self.rev@;
        let r = self.rev.pop();
        proof {
            if r0.len() > 0 {
                assert(backwards(self.rev@) =~= backwards(r0).drop_first());
            }
        }
        r
    }

    /// The exact number of elements left to yield, as lower and upper bound.
    pub fn size_hint(&self) -> (r: (usize, Option<usize>))
        ensures
            r.0 == self.remaining().len(),
            r.1 == Some(r.0),
    {
        let len = self.rev.len();
        (len, Some(len))
    }
}

/// Keeps the references of `refs` at positions `start` to `start + len` and
/// drops the others, whose targets thereby keep their values.
pub(crate) fn keep_range<'a, T>(refs: Vec<&'a mut T>, start: usize, len: usize) -> (r: Vec<
    &'a mut T,
>)
    requires
        start + len <= refs@.len(),
    ensures
        r@ == refs@.subrange(start as int, start + len),
        forall|i: int|
            0 <= i < refs@.len() && !(start <= i < start + len) ==> *final(#[trigger] refs@[i])
                == *refs@[i],
{
    broadcast use axiom_vec_has_resolved;

    let ghost orig = refs@;
    assert(refs@.len() == refs.len());
    let mut v = refs;
    let tail = v.split_off(start + len);
    let kept = v.split_off(start);
    proof {
        assert(has_resolved(tail));
        assert(has_resolved(v));
        assert forall|i: int|
            0 <= i < orig.len() && !(start <= i < start + len) implies *final(#[trigger] orig[i])
            == *orig[i] by {
            if i < start {
                assert(v@[i] == orig[i]);
                assert(has_resolved(v@[i]));
            } else {
                assert(tail@[i - start - len] == orig[i]);
                assert(has_resolved(tail@[i - start - len]));
            }
        }
    }
    kept
}

/// Iterator that moves the elements out of a gap buffer, front to back.
pub struct IntoIter<T> {
    buf: GapBuffer<T>,
}

impl<T> View for IntoIter<T> {
    type V = Seq<T>;

    /// The elements not yet yielded.
    closed spec fn view(&self) -> Seq<T> {
        self.buf@
    }
}

impl<T> IntoIter<T> {
    /// The iterator is well formed.
    pub closed spec fn wf(&self) -> bool {
        self.buf.wf()
    }

    /// An iterator over the elements of `buf`.
    pub(crate) fn new(buf: GapBuffer<T>) -> (it: Self)
        requires
            buf.wf(),
        ensures
            it.wf(),
            it@ == buf@,
    {
        IntoIter { buf }
    }

    /// Yields the next element, or `None` once all have been yielded.
    pub fn next(&mut self) -> (r: Option<T>)
        requires
            old(self).wf(),
        ensures
            final(self).wf(),
            old(self)@.len() == 0 ==> r is None && final(self)@ == old(self)@,
            old(self)@.len() > 0 ==> r == Some(old(self)@[0]) && final(self)@ == old(
                self,
            )@.drop_first(),
    {
        self.buf.pop_front()
    }

    /// The exact number of elements left to yield, as lower and upper bound.
    pub fn size_hint(&self) -> (r: (usize, Option<usize>))
        requires
            self.wf(),
        ensures
            r.0 == self@.len(),
            r.1 == Some(r.0),
    {
        let len = self.buf.len();
        (len, Some(len))
    }
}

/// The elements removed by `GapBuffer::drain`, yielded front to back.
pub struct Drain<T> {
    items: GapBuffer<T>,
}

impl<T> View for Drain<T> {
    type V = Seq<T>;

    /// The removed elements not yet yielded.
    closed spec fn view(&self) -> Seq<T> {
        self.items@
    }
}

impl<T> Drain<T> {
    /// The iterator is well formed.
    pub closed spec fn wf(&self) -> bool {
        self.items.wf()
    }

    /// An iterator over the removed elements `items`.
    pub(crate) fn new(items: GapBuffer<T>) -> (it: Self)
        requires
            items.wf(),
        ensures
            it.wf(),
            it@ == items@,
    {
        Drain { items }
    }

    /// Yields the next removed element, or `None` once all have been yielded.
    pub fn next(&mut self) -> (r: Option<T>)
        requires
            old(self).wf(),
        ensures
            final(self).wf(),
            old(self)@.len() == 0 ==> r is None && final(self)@ == old(self)@,
            old(self)@.len() > 0 ==> r == Some(old(self)@[0]) && final(self)@ == old(
                self,
            )@.drop_first(),
    {
        self.items.pop_front()
    }

    /// The exact number of elements left to yield, as lower and upper bound.
    pub fn size_hint(&self) -> (r: (usize, Option<usize>))
        requires
            self.wf(),
        ensures
            r.0 == self@.len(),
            r.1 == Some(r.0),
    {
        let len = self.items.len();
        (len, Some(len))
    }
}

} // verus!
