//! The order in which the table shows things that carry a time of capture:
//! latest first, and of two with the same time the one that was listed first.

use vstd::prelude::*;

verus! {

/// Where the entry `x` goes in `order`: before the first entry from `from` on
/// that was captured earlier than `x`, or at the end.
pub open spec fn slot_for(order: Seq<int>, stamps: Seq<u128>, x: int, from: int) -> int
    decreases order.len() - from,
{
    if from < 0 || from >= order.len() {
        order.len() as int
    } else if stamps[order[from]] < stamps[x] {
        from
    } else {
        slot_for(order, stamps, x, from + 1)
    }
}

/// The indices of `stamps` in display order.
pub open spec fn display_order(stamps: Seq<u128>) -> Seq<int>
    decreases stamps.len(),
{
    if stamps.len() == 0 {
        Seq::empty()
    } else {
        let rest = display_order(stamps.drop_last());
        rest.insert(slot_for(rest, stamps, stamps.len() - 1, 0), stamps.len() - 1)
    }
}

/// Whether the entry `a` is shown before the entry `b`: it is later, or as
/// late and listed earlier.
pub open spec fn shown_before(stamps: Seq<u128>, a: int, b: int) -> bool {
    stamps[a] > stamps[b] || (stamps[a] == stamps[b] && a < b)
}

/// Whether `order` lists every index of `stamps` once, each before all that
/// are shown after it.
pub open spec fn is_display_order(order: Seq<int>, stamps: Seq<u128>) -> bool {
    &&& order.len() == stamps.len()
    &&& forall|i: int| 0 <= i < order.len() ==> 0 <= #[trigger] order[i] < stamps.len()
    &&& forall|i: int, j: int|
        0 <= i < j < order.len() ==> shown_before(stamps, #[trigger] order[i], #[trigger] order[j])
}

/// Where [`slot_for`] points: behind the entries that are at least as late as
/// `x`, before those that are earlier.
pub proof fn lemma_slot_for(order: Seq<int>, stamps: Seq<u128>, x: int, from: int)
    requires
        0 <= from <= order.len(),
    ensures
        from <= slot_for(order, stamps, x, from) <= order.len(),
        forall|j: int|
            from <= j < slot_for(order, stamps, x, from) ==> stamps[#[trigger] order[j]]
                >= stamps[x],
        slot_for(order, stamps, x, from) < order.len() ==> stamps[order[slot_for(
            order,
            stamps,
            x,
            from,
        )]] < stamps[x],
    decreases order.len() - from,
{
    if from < order.len() && !(stamps[order[from]] < stamps[x]) {
        lemma_slot_for(order, stamps, x, from + 1);
    }
}

/// [`display_order`] is a display order: it lists every index once, the
/// latest first, and of two as late the one listed first.
pub proof fn lemma_display_order(stamps: Seq<u128>)
    ensures
        is_display_order(display_order(stamps), stamps),
    decreases stamps.len(),
{
    if stamps.len() > 0 {
        let shorter = stamps.drop_last();
        let rest = display_order(shorter);
        let x = stamps.len() - 1;
        let p = slot_for(rest, stamps, x, 0);
        lemma_display_order(shorter);
        lemma_slot_for(rest, stamps, x, 0);
        let order = rest.insert(p, x);
        assert forall|i: int| 0 <= i < order.len() implies 0 <= #[trigger] order[i]
            < stamps.len() by {
            if i < p {
                assert(order[i] == rest[i]);
            } else if i > p {
                assert(order[i] == rest[i - 1]);
            }
        }
        assert forall|i: int, j: int| 0 <= i < j < order.len() implies shown_before(
            stamps,
            #[trigger] order[i],
            #[trigger] order[j],
        ) by {
            let a = if i < p {
                i
            } else {
                i - 1
            };
            let b = if j < p {
                j
            } else {
                j - 1
            };
            if i != p {
                assert(order[i] == rest[a]);
                assert(0 <= rest[a] < shorter.len());
                assert(shorter[rest[a]] == stamps[rest[a]]);
            }
            if j != p {
                assert(order[j] == rest[b]);
                assert(0 <= rest[b] < shorter.len());
                assert(shorter[rest[b]] == stamps[rest[b]]);
            }
            if i != p && j != p {
                assert(shown_before(shorter, rest[a], rest[b]));
            } else if i == p {
                assert(order[i] == x);
                if p < rest.len() {
                    assert(stamps[rest[p]] < stamps[x]);
                    if b > p {
                        assert(shown_before(shorter, rest[p], rest[b]));
                    }
                }
            } else {
                assert(order[j] == x);
            }
        }
    }
}

/// The indices of `stamps` in display order.
pub fn order_by_time(stamps: &Vec<u128>) -> (order: Vec<usize>)
    ensures
        order@.map_values(|i: usize| i as int) == display_order(stamps@),
        order@.len() == stamps@.len(),
        forall|i: int| 0 <= i < order@.len() ==> #[trigger] order@[i] < stamps@.len(),
{
    let mut order: Vec<usize> = Vec::new();
    let mut n: usize = 0;
    while n < stamps.len()
        invariant
            n <= stamps.len(),
            order@.len() == n,
            order@.map_values(|i: usize| i as int) == display_order(stamps@.take(n as int)),
            forall|i: int| 0 <= i < order@.len() ==> #[trigger] order@[i] < n,
        decreases stamps.len() - n,
    {
        let ghost rest = order@.map_values(|i: usize| i as int);
        let ghost longer = stamps@.take(n as int + 1);
        let mut p: usize = 0;
        while p < order.len() && stamps[order[p]] >= stamps[n]
            invariant
                p <= order@.len(),
                n < stamps.len(),
                order@.len() == n,
                rest == order@.map_values(|i: usize| i as int),
                longer == stamps@.take(n as int + 1),
                forall|i: int| 0 <= i < order@.len() ==> #[trigger] order@[i] < n,
                slot_for(rest, longer, n as int, 0) == slot_for(rest, longer, n as int, p as int),
            decreases order@.len() - p,
        {
            assert(rest[p as int] == order@[p as int] as int);
            assert(longer[rest[p as int]] == stamps@[order@[p as int] as int]);
            p = p + 1;
        }
        proof {
            if p < order.len() {
                assert(rest[p as int] == order@[p as int] as int);
                assert(longer[rest[p as int]] == stamps@[order@[p as int] as int]);
            }
            assert(longer.drop_last() =~= stamps@.take(n as int));
        }
        order.insert(p, n);
        assert(order@.map_values(|i: usize| i as int) =~= rest.insert(p as int, n as int));
        n = n + 1;
    }
    assert(stamps@.take(n as int) =~= stamps@);
    order
}

} // verus!
