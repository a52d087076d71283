//! Properties that relate the operations of the buffer to one another,
//! stated over the sequences their contracts speak of.
use vstd::prelude::*;

use crate::gap_buffer::{filtered, reserved_capacity, swap_removed};

verus! {

/// `remove(i)` undoes `insert(i, x)`: it gives back `x` and leaves the
/// elements as they were before the insertion.
pub proof fn law_remove_undoes_insert<T>(s: Seq<T>, i: int, x: T)
    requires
        0 <= i <= s.len(),
    ensures
        s.insert(i, x)[i] == x,
        s.insert(i, x).remove(i) == s,
{
    assert(s.insert(i, x).remove(i) =~= s);
}

/// `insert(i, x)` with the element `x` that `remove(i)` returned undoes the
/// removal.
pub proof fn law_insert_undoes_remove<T>(s: Seq<T>, i: int)
    requires
        0 <= i < s.len(),
    ensures
        s.remove(i).insert(i, s[i]) == s,
{
    assert(s.remove(i).insert(i, s[i]) =~= s);
}

/// A read at a position gives back what was last written there, and a
/// write leaves every other position as it was (`get_mut`, `index_mut`,
/// `replace` through a mutable range).
pub proof fn law_read_after_write<T>(s: Seq<T>, i: int, j: int, x: T)
    requires
        0 <= i < s.len(),
        0 <= j < s.len(),
    ensures
        s.update(i, x).len() == s.len(),
        s.update(i, x)[i] == x,
        j != i ==> s.update(i, x)[j] == s[j],
{
}

/// `pop_back` undoes `push_back(x)` and returns `x`.
pub proof fn law_pop_back_undoes_push_back<T>(s: Seq<T>, x: T)
    ensures
        s.push(x).last() == x,
        s.push(x).drop_last() == s,
{
    assert(s.push(x).drop_last() =~= s);
}

/// `pop_front` undoes `push_front(x)` and returns `x`.
pub proof fn law_pop_front_undoes_push_front<T>(s: Seq<T>, x: T)
    ensures
        (seq![x] + s)[0] == x,
        (seq![x] + s).drop_first() == s,
{
    assert((seq![x] + s).drop_first() =~= s);
}

/// Swapping the same two positions twice restores the elements.
pub proof fn law_swap_twice<T>(s: Seq<T>, a: int, b: int)
    requires
        0 <= a < s.len(),
        0 <= b < s.len(),
    ensures
        ({
            let t = s.update(a, s[b]).update(b, s[a]);
            t.update(a, t[b]).update(b, t[a])
        }) == s,
{
    let t = s.update(a, s[b]).update(b, s[a]);
    assert(t.update(a, t[b]).update(b, t[a]) =~= s);
}

/// `swap_remove(i)` removes exactly the element at `i`: the elements left
/// are those before, with one occurrence of that element less, wherever the
/// gap was.
pub proof fn law_swap_remove_removes_one<T>(s: Seq<T>, i: int, g: int)
    requires
        0 <= i < s.len(),
        0 <= g <= s.len(),
    ensures
        swap_removed(s, i, g).len() == s.len() - 1,
        swap_removed(s, i, g).to_multiset() == s.to_multiset().remove(s[i]),
{
    broadcast use vstd::multiset::group_multiset_axioms;
    broadcast use vstd::seq_lib::to_multiset_remove;
    broadcast use vstd::seq_lib::to_multiset_update;
    broadcast use vstd::seq_lib::to_multiset_contains;

    let j = if i < g {
        g - 1
    } else {
        g
    };
    let x = s[i];
    let y = s[j];
    let t = s.update(i, y);
    assert(t[j] == y);
    assert(t.remove(j).to_multiset() == t.to_multiset().remove(y));
    assert(t.to_multiset() == s.to_multiset().insert(y).remove(x));
    assert(s.contains(x));
    assert(s.to_multiset().count(x) > 0);
    assert(t.remove(j).to_multiset() =~= s.to_multiset().remove(x));
}

/// `swap_remove(i)` keeps every element in place except near the gap: when
/// `i` precedes the gap at `g`, the element just before the gap fills
/// position `i` and the elements after the gap close up over its old place;
/// otherwise the element just after the gap fills `i`'s place (one position
/// down, since the element just after the gap leaves), and the rest close up.
pub proof fn law_swap_remove_positions<T>(s: Seq<T>, i: int, g: int)
    requires
        0 <= i < s.len(),
        0 <= g <= s.len(),
    ensures
        swap_removed(s, i, g).len() == s.len() - 1,
        i < g ==> forall|k: int|
            0 <= k < s.len() - 1 ==> #[trigger] swap_removed(s, i, g)[k] == if k == i && i < g
                - 1 {
                s[g - 1]
            } else if k < g - 1 {
                s[k]
            } else {
                s[k + 1]
            },
        g <= i ==> forall|k: int|
            0 <= k < s.len() - 1 ==> #[trigger] swap_removed(s, i, g)[k] == if k == i - 1 && g
                < i {
                s[g]
            } else if k < g {
                s[k]
            } else {
                s[k + 1]
            },
{
}

/// Reserving gives at least the room asked for and never shrinks the
/// capacity; it leaves the capacity alone when the room is already there;
/// the exact form gives no more than asked for, and the other form at least
/// doubles the capacity when it grows (up to the largest `usize`).
pub proof fn law_reserved_capacity(len: nat, cap: nat, additional: nat, exact: bool)
    requires
        len <= cap <= usize::MAX,
        len + additional <= usize::MAX,
    ensures
        reserved_capacity(len, cap, additional, exact) >= len + additional,
        reserved_capacity(len, cap, additional, exact) >= cap,
        reserved_capacity(len, cap, additional, exact) <= usize::MAX,
        len + additional <= cap ==> reserved_capacity(len, cap, additional, exact) == cap,
        exact && len + additional > cap ==> reserved_capacity(len, cap, additional, exact) == len
            + additional,
        !exact && len + additional > cap ==> reserved_capacity(len, cap, additional, exact) >= 2
            * cap || reserved_capacity(len, cap, additional, exact) == usize::MAX,
{
}

/// `drain(i..j)` splits the elements into those kept in front, those handed
/// out, and those kept behind, in order: nothing is lost or reordered.
pub proof fn law_drain_partitions<T>(s: Seq<T>, i: int, j: int)
    requires
        0 <= i <= j <= s.len(),
    ensures
        s.subrange(0, i) + s.subrange(i, j) + s.subrange(j, s.len() as int) == s,
{
    assert(s.subrange(0, i) + s.subrange(i, j) + s.subrange(j, s.len() as int) =~= s);
}

/// `retain` keeps only elements on which the predicate answered true: each
/// element left is an element of the input at a position that was kept.
pub proof fn law_retain_keeps_only_accepted<T>(s: Seq<T>, keep: Seq<bool>, k: int)
    requires
        keep.len() == s.len(),
        0 <= k < filtered(s, keep).len(),
    ensures
        exists|i: int| 0 <= i < s.len() && keep[i] && #[trigger] s[i] == filtered(s, keep)[k],
    decreases s.len(),
{
    let n = s.len() as int;
    let rest = filtered(s.drop_last(), keep.drop_last());
    crate::gap_buffer::lemma_filtered_len(s.drop_last(), keep.drop_last());
    if k < rest.len() {
        law_retain_keeps_only_accepted(s.drop_last(), keep.drop_last(), k);
        let i = choose|i: int|
            0 <= i < s.drop_last().len() && keep.drop_last()[i] && #[trigger] s.drop_last()[i]
                == rest[k];
        assert(s[i] == filtered(s, keep)[k]);
    } else {
        assert(keep[n - 1]);
        assert(s[n - 1] == filtered(s, keep)[k]);
    }
}

/// `retain` keeps everything when the predicate accepts every element, and
/// nothing when it accepts none.
pub proof fn law_retain_all_or_none<T>(s: Seq<T>, keep: Seq<bool>)
    requires
        keep.len() == s.len(),
    ensures
        (forall|i: int| 0 <= i < keep.len() ==> #[trigger] keep[i]) ==> filtered(s, keep) == s,
        (forall|i: int| 0 <= i < keep.len() ==> !#[trigger] keep[i]) ==> filtered(s, keep).len()
            == 0,
    decreases s.len(),
{
    if s.len() > 0 {
        law_retain_all_or_none(s.drop_last(), keep.drop_last());
        if forall|i: int| 0 <= i < keep.len() ==> #[trigger] keep[i] {
            assert(forall|i: int|
                0 <= i < keep.drop_last().len() ==> #[trigger] keep.drop_last()[i] == keep[i]);
            assert(filtered(s.drop_last(), keep.drop_last()).push(s.last()) =~= s);
        }
        if forall|i: int| 0 <= i < keep.len() ==> !#[trigger] keep[i] {
            assert(forall|i: int|
                0 <= i < keep.drop_last().len() ==> #[trigger] keep.drop_last()[i] == keep[i]);
        }
    }
}

} // verus!
