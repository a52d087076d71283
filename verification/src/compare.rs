//! Lexicographic comparison of the elements of a buffer.
use vstd::prelude::*;
use vstd::std_specs::cmp::{OrdSpec, PartialOrdSpec};

use crate::gap_buffer::GapBuffer;
use crate::slice::Slice;

use core::cmp::Ordering;

verus! {

/// Lexicographic order of `a` and `b` under the order of their elements:
/// the first pair of elements that are not equal decides; otherwise the
/// shorter sequence comes first.
pub open spec fn lex_order<T: Ord>(a: Seq<T>, b: Seq<T>) -> Ordering
    decreases a.len(),
{
    if a.len() == 0 {
        if b.len() == 0 {
            Ordering::Equal
        } else {
            Ordering::Less
        }
    } else if b.len() == 0 {
        Ordering::Greater
    } else {
        match a[0].cmp_spec(&b[0]) {
            Ordering::Equal => lex_order(a.drop_first(), b.drop_first()),
            o => o,
        }
    }
}

/// Lexicographic partial order of `a` and `b`: the first pair of elements
/// that do not compare equal decides (`None` when they are unordered);
/// otherwise the shorter sequence comes first.
pub open spec fn lex_partial_order<T: PartialOrd>(a: Seq<T>, b: Seq<T>) -> Option<Ordering>
    decreases a.len(),
{
    if a.len() == 0 {
        if b.len() == 0 {
            Some(Ordering::Equal)
        } else {
            Some(Ordering::Less)
        }
    } else if b.len() == 0 {
        Some(Ordering::Greater)
    } else {
        match a[0].partial_cmp_spec(&b[0]) {
            Some(Ordering::Equal) => lex_partial_order(a.drop_first(), b.drop_first()),
            o => o,
        }
    }
}

/// Once the first `k` pairs are equal, the order is decided by what follows.
proof fn lemma_lex_order_skip<T: Ord>(a: Seq<T>, b: Seq<T>, k: int)
    requires
        0 <= k <= a.len(),
        k <= b.len(),
        forall|i: int| 0 <= i < k ==> (#[trigger] a[i]).cmp_spec(&b[i]) == Ordering::Equal,
    ensures
        lex_order(a, b) == lex_order(a.skip(k), b.skip(k)),
    decreases k,
{
    if k > 0 {
        assert(a.drop_first().skip(k - 1) =~= a.skip(k));
        assert(b.drop_first().skip(k - 1) =~= b.skip(k));
        assert forall|i: int| 0 <= i < k - 1 implies (#[trigger] a.drop_first()[i]).cmp_spec(
            &b.drop_first()[i],
        ) == Ordering::Equal by {
            assert(a[i + 1].cmp_spec(&b[i + 1]) == Ordering::Equal);
        }
        lemma_lex_order_skip(a.drop_first(), b.drop_first(), k - 1);
        assert(a[0].cmp_spec(&b[0]) == Ordering::Equal);
    } else {
        assert(a.skip(0) =~= a);
        assert(b.skip(0) =~= b);
    }
}

/// Once the first `k` pairs compare equal, the order is decided by what
/// follows.
proof fn lemma_lex_partial_order_skip<T: PartialOrd>(a: Seq<T>, b: Seq<T>, k: int)
    requires
        0 <= k <= a.len(),
        k <= b.len(),
        forall|i: int|
            0 <= i < k ==> (#[trigger] a[i]).partial_cmp_spec(&b[i]) == Some(Ordering::Equal),
    ensures
        lex_partial_order(a, b) == lex_partial_order(a.skip(k), b.skip(k)),
    decreases k,
{
    if k > 0 {
        assert(a.drop_first().skip(k - 1) =~= a.skip(k));
        assert(b.drop_first().skip(k - 1) =~= b.skip(k));
        assert forall|i: int| 0 <= i < k - 1 implies (#[trigger] a.drop_first()[i]).partial_cmp_spec(
            &b.drop_first()[i],
        ) == Some(Ordering::Equal) by {
            assert(a[i + 1].partial_cmp_spec(&b[i + 1]) == Some(Ordering::Equal));
        }
        lemma_lex_partial_order_skip(a.drop_first(), b.drop_first(), k - 1);
        assert(a[0].partial_cmp_spec(&b[0]) == Some(Ordering::Equal));
    } else {
        assert(a.skip(0) =~= a);
        assert(b.skip(0) =~= b);
    }
}

/// The first pair of elements that are not equal decides the order of two
/// sequences, whatever their lengths.
pub proof fn law_lex_order_first_difference<T: Ord>(a: Seq<T>, b: Seq<T>, k: int)
    requires
        0 <= k < a.len(),
        k < b.len(),
        forall|i: int| 0 <= i < k ==> (#[trigger] a[i]).cmp_spec(&b[i]) == Ordering::Equal,
        a[k].cmp_spec(&b[k]) != Ordering::Equal,
    ensures
        lex_order(a, b) == a[k].cmp_spec(&b[k]),
{
    lemma_lex_order_skip(a, b, k);
    assert(a.skip(k)[0] == a[k]);
    assert(b.skip(k)[0] == b[k]);
}

/// When all the pairs of elements the two sequences have in common are
/// equal, the shorter sequence comes first, and sequences of the same length
/// are equal.
pub proof fn law_lex_order_prefix<T: Ord>(a: Seq<T>, b: Seq<T>)
    requires
        forall|i: int|
            0 <= i < a.len() && i < b.len() ==> (#[trigger] a[i]).cmp_spec(&b[i])
                == Ordering::Equal,
    ensures
        lex_order(a, b) == if a.len() < b.len() {
            Ordering::Less
        } else if a.len() > b.len() {
            Ordering::Greater
        } else {
            Ordering::Equal
        },
{
    let m: int = if a.len() < b.len() {
        a.len() + 0int
    } else {
        b.len() + 0int
    };
    lemma_lex_order_skip(a, b, m);
}

/// The first pair of elements that do not compare equal decides the partial
/// order of two sequences, whatever their lengths (`None` when that pair is
/// unordered).
pub proof fn law_lex_partial_order_first_difference<T: PartialOrd>(a: Seq<T>, b: Seq<T>, k: int)
    requires
        0 <= k < a.len(),
        k < b.len(),
        forall|i: int|
            0 <= i < k ==> (#[trigger] a[i]).partial_cmp_spec(&b[i]) == Some(Ordering::Equal),
        a[k].partial_cmp_spec(&b[k]) != Some(Ordering::Equal),
    ensures
        lex_partial_order(a, b) == a[k].partial_cmp_spec(&b[k]),
{
    lemma_lex_partial_order_skip(a, b, k);
    assert(a.skip(k)[0] == a[k]);
    assert(b.skip(k)[0] == b[k]);
}

/// When all the pairs of elements the two sequences have in common compare
/// equal, the shorter sequence comes first, and sequences of the same length
/// are equal.
pub proof fn law_lex_partial_order_prefix<T: PartialOrd>(a: Seq<T>, b: Seq<T>)
    requires
        forall|i: int|
            0 <= i < a.len() && i < b.len() ==> (#[trigger] a[i]).partial_cmp_spec(&b[i]) == Some(
                Ordering::Equal,
            ),
    ensures
        lex_partial_order(a, b) == if a.len() < b.len() {
            Some(Ordering::Less)
        } else if a.len() > b.len() {
            Some(Ordering::Greater)
        } else {
            Some(Ordering::Equal)
        },
{
    let m: int = if a.len() < b.len() {
        a.len() + 0int
    } else {
        b.len() + 0int
    };
    lemma_lex_partial_order_skip(a, b, m);
}

impl<T: Ord> Slice<T> {
    /// Compares the elements with those of `other`, lexicographically: the
    /// first pair of elements that are not equal decides; only when one
    /// sequence is a prefix of the other does the length decide.
    pub fn cmp(&self, other: &Slice<T>) -> (r: Ordering)
        requires
            self.wf(),
            other.wf(),
        ensures
            T::obeys_cmp_spec() ==> r == lex_order(self@, other@),
            T::obeys_cmp_spec() ==> forall|k: int|
                #![trigger self@[k].cmp_spec(&other@[k])]
                0 <= k < self@.len() && k < other@.len() && (forall|i: int|
                    0 <= i < k ==> (#[trigger] self@[i]).cmp_spec(&other@[i]) == Ordering::Equal) && self@[k].cmp_spec(
                    &other@[k],
                ) != Ordering::Equal ==> r == self@[k].cmp_spec(&other@[k]),
            T::obeys_cmp_spec() && (forall|i: int|
                0 <= i < self@.len() && i < other@.len() ==> (#[trigger] self@[i]).cmp_spec(&other@[i])
                    == Ordering::Equal) ==> r == if self@.len() < other@.len() {
                Ordering::Less
            } else if self@.len() > other@.len() {
                Ordering::Greater
            } else {
                Ordering::Equal
            },
    {
        let r = self.lex_compare(other);
        proof {
            if T::obeys_cmp_spec() {
                assert forall|k: int|
                    #![trigger self@[k].cmp_spec(&other@[k])]
                    0 <= k < self@.len() && k < other@.len() && (forall|i: int|
                        0 <= i < k ==> (#[trigger] self@[i]).cmp_spec(&other@[i]) == Ordering::Equal) && self@[k].cmp_spec(
                        &other@[k],
                    ) != Ordering::Equal implies r == self@[k].cmp_spec(&other@[k]) by {
                    law_lex_order_first_difference(self@, other@, k);
                }
                if forall|i: int|
                    0 <= i < self@.len() && i < other@.len() ==> (#[trigger] self@[i]).cmp_spec(&other@[i])
                        == Ordering::Equal {
                    law_lex_order_prefix(self@, other@);
                }
            }
        }
        r
    }

    /// The lexicographic order of the elements and those of `other`.
    fn lex_compare(&self, other: &Slice<T>) -> (r: Ordering)
        requires
            self.wf(),
            other.wf(),
        ensures
            T::obeys_cmp_spec() ==> r == lex_order(self@, other@),
    {
        let n = self.len();
        let m = other.len();
        let mut k: usize = 0;
        let ghost mut gk: int = 0;
        while k < n && k < m
            invariant
                self.wf(),
                other.wf(),
                n == self@.len(),
                m == other@.len(),
                gk == k,
                k <= n,
                k <= m,
                T::obeys_cmp_spec() ==> forall|i: int|
                    0 <= i < gk ==> (#[trigger] self@[i]).cmp_spec(&other@[i]) == Ordering::Equal,
            decreases n - k,
        {
            let c = self.index(k).cmp(other.index(k));
            match c {
                Ordering::Equal => {},
                _ => {
                    proof {
                        if T::obeys_cmp_spec() {
                            lemma_lex_order_skip(self@, other@, gk);
                        }
                    }
                    return c;
                },
            }
            k = k + 1;
            proof {
                gk = gk + 1;
            }
        }
        proof {
            if T::obeys_cmp_spec() {
                lemma_lex_order_skip(self@, other@, gk);
            }
        }
        if k < n {
            Ordering::Greater
        } else if k < m {
            Ordering::Less
        } else {
            Ordering::Equal
        }
    }
}

impl<T: PartialOrd> Slice<T> {
    /// Compares the elements with those of `other`, lexicographically, as far
    /// as the elements are ordered: the first pair of elements that do not
    /// compare equal decides; only when all the pairs in common compare equal
    /// does the length decide.
    pub fn partial_cmp(&self, other: &[T]) -> (r: Option<Ordering>)
        requires
            self.wf(),
        ensures
            T::obeys_partial_cmp_spec() ==> r == lex_partial_order(self@, other@),
            T::obeys_partial_cmp_spec() ==> forall|k: int|
                #![trigger self@[k].partial_cmp_spec(&other@[k])]
                0 <= k < self@.len() && k < other@.len() && (forall|i: int|
                    0 <= i < k ==> (#[trigger] self@[i]).partial_cmp_spec(&other@[i]) == Some(Ordering::Equal)) && self@[k].partial_cmp_spec(
                    &other@[k],
                ) != Some(Ordering::Equal) ==> r == self@[k].partial_cmp_spec(&other@[k]),
            T::obeys_partial_cmp_spec() && (forall|i: int|
                0 <= i < self@.len() && i < other@.len() ==> (#[trigger] self@[i]).partial_cmp_spec(&other@[i])
                    == Some(Ordering::Equal)) ==> r == if self@.len() < other@.len() {
                Some(Ordering::Less)
            } else if self@.len() > other@.len() {
                Some(Ordering::Greater)
            } else {
                Some(Ordering::Equal)
            },
    {
        let r = self.lex_partial_compare(other);
        proof {
            if T::obeys_partial_cmp_spec() {
                assert forall|k: int|
                    #![trigger self@[k].partial_cmp_spec(&other@[k])]
                    0 <= k < self@.len() && k < other@.len() && (forall|i: int|
                        0 <= i < k ==> (#[trigger] self@[i]).partial_cmp_spec(&other@[i]) == Some(Ordering::Equal)) && self@[k].partial_cmp_spec(
                        &other@[k],
                    ) != Some(Ordering::Equal) implies r == self@[k].partial_cmp_spec(&other@[k]) by {
                    law_lex_partial_order_first_difference(self@, other@, k);
                }
                if forall|i: int|
                    0 <= i < self@.len() && i < other@.len() ==> (#[trigger] self@[i]).partial_cmp_spec(&other@[i])
                        == Some(Ordering::Equal) {
                    law_lex_partial_order_prefix(self@, other@);
                }
            }
        }
        r
    }

    /// The lexicographic partial order of the elements and those of `other`.
    fn lex_partial_compare(&self, other: &[T]) -> (r: Option<Ordering>)
        requires
            self.wf(),
        ensures
            T::obeys_partial_cmp_spec() ==> r == lex_partial_order(self@, other@),
    {
        let n = self.len();
        let m = other.len();
        let mut k: usize = 0;
        let ghost mut gk: int = 0;
        while k < n && k < m
            invariant
                self.wf(),
                n == self@.len(),
                m == other@.len(),
                gk == k,
                k <= n,
                k <= m,
                T::obeys_partial_cmp_spec() ==> forall|i: int|
                    0 <= i < gk ==> (#[trigger] self@[i]).partial_cmp_spec(&other@[i]) == Some(
                        Ordering::Equal,
                    ),
            decreases n - k,
        {
            let c = self.index(k).partial_cmp(&other[k]);
            match c {
                Some(Ordering::Equal) => {},
                _ => {
                    proof {
                        if T::obeys_partial_cmp_spec() {
                            lemma_lex_partial_order_skip(self@, other@, gk);
                        }
                    }
                    return c;
                },
            }
            k = k + 1;
            proof {
                gk = gk + 1;
            }
        }
        proof {
            if T::obeys_partial_cmp_spec() {
                lemma_lex_partial_order_skip(self@, other@, gk);
            }
        }
        if k < n {
            Some(Ordering::Greater)
        } else if k < m {
            Some(Ordering::Less)
        } else {
            Some(Ordering::Equal)
        }
    }
}

impl<T: Ord> GapBuffer<T> {
    /// Compares the elements with those of `other`, lexicographically.
    pub fn cmp(&self, other: &GapBuffer<T>) -> (r: Ordering)
        requires
            self.wf(),
            other.wf(),
        ensures
            T::obeys_cmp_spec() ==> r == lex_order(self@, other@),
            T::obeys_cmp_spec() ==> forall|k: int|
                #![trigger self@[k].cmp_spec(&other@[k])]
                0 <= k < self@.len() && k < other@.len() && (forall|i: int|
                    0 <= i < k ==> (#[trigger] self@[i]).cmp_spec(&other@[i]) == Ordering::Equal) && self@[k].cmp_spec(
                    &other@[k],
                ) != Ordering::Equal ==> r == self@[k].cmp_spec(&other@[k]),
            T::obeys_cmp_spec() && (forall|i: int|
                0 <= i < self@.len() && i < other@.len() ==> (#[trigger] self@[i]).cmp_spec(&other@[i])
                    == Ordering::Equal) ==> r == if self@.len() < other@.len() {
                Ordering::Less
            } else if self@.len() > other@.len() {
                Ordering::Greater
            } else {
                Ordering::Equal
            },
    {
        self.as_slice().cmp(other.as_slice())
    }
}

impl<T: PartialOrd> GapBuffer<T> {
    /// Compares the elements with those of `other`, lexicographically, as far
    /// as the elements are ordered.
    pub fn partial_cmp(&self, other: &[T]) -> (r: Option<Ordering>)
        requires
            self.wf(),
        ensures
            T::obeys_partial_cmp_spec() ==> r == lex_partial_order(self@, other@),
            T::obeys_partial_cmp_spec() ==> forall|k: int|
                #![trigger self@[k].partial_cmp_spec(&other@[k])]
                0 <= k < self@.len() && k < other@.len() && (forall|i: int|
                    0 <= i < k ==> (#[trigger] self@[i]).partial_cmp_spec(&other@[i]) == Some(Ordering::Equal)) && self@[k].partial_cmp_spec(
                    &other@[k],
                ) != Some(Ordering::Equal) ==> r == self@[k].partial_cmp_spec(&other@[k]),
            T::obeys_partial_cmp_spec() && (forall|i: int|
                0 <= i < self@.len() && i < other@.len() ==> (#[trigger] self@[i]).partial_cmp_spec(&other@[i])
                    == Some(Ordering::Equal)) ==> r == if self@.len() < other@.len() {
                Some(Ordering::Less)
            } else if self@.len() > other@.len() {
                Some(Ordering::Greater)
            } else {
                Some(Ordering::Equal)
            },
    {
        self.as_slice().partial_cmp(other)
    }
}

} // verus!
