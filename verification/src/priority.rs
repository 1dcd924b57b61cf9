//! Priorities of the plugins of a profile, and moving one plugin to another
//! place in their order.

use vstd::prelude::*;

verus! {

/// The priority that `p` becomes when the plugin of priority `from` is moved
/// to priority `to`: that plugin takes `to`, and those between the two places
/// close the gap.
pub open spec fn moved_priority(p: u32, from: u32, to: u32) -> u32 {
    if p == from {
        to
    } else if from < to && from <= p <= to && p != 0 {
        (p - 1) as u32
    } else if from > to && to <= p <= from {
        (p + 1) as u32
    } else {
        p
    }
}

/// Every priority of `s` after the plugin of priority `from` is moved to `to`.
pub open spec fn reordered(s: Seq<u32>, from: u32, to: u32) -> Seq<u32> {
    Seq::new(s.len(), |i: int| moved_priority(s[i], from, to))
}

/// Moves the plugin of priority `row_index` to priority `to_index`, updating
/// every priority.
pub fn reorder_priorities(priorities: &mut Vec<u32>, row_index: usize, to_index: usize)
    ensures
        final(priorities)@ == reordered(old(priorities)@, row_index as u32, to_index as u32),
{
    let from = row_index as u32;
    let to = to_index as u32;
    let ghost orig = priorities@;
    let mut i: usize = 0;
    while i < priorities.len()
        invariant
            i <= priorities.len(),
            orig.len() == priorities@.len(),
            from == row_index as u32,
            to == to_index as u32,
            forall|k: int|
                0 <= k < i ==> #[trigger] priorities@[k] == moved_priority(orig[k], from, to),
            forall|k: int| i <= k < priorities@.len() ==> #[trigger] priorities@[k] == orig[k],
        decreases priorities.len() - i,
    {
        let p = priorities[i];
        let q = if p == from {
            to
        } else if from < to && p >= from && p <= to && p != 0 {
            p - 1
        } else if from > to && p <= from && p >= to {
            p + 1
        } else {
            p
        };
        priorities.set(i, q);
        i = i + 1;
    }
    assert(priorities@ =~= reordered(orig, from, to));
}

/// Priorities `0..n`, each held by exactly one of `n` plugins.
pub open spec fn is_ranking(s: Seq<u32>) -> bool {
    &&& forall|i: int| 0 <= i < s.len() ==> (#[trigger] s[i]) < s.len()
    &&& forall|i: int, j: int| 0 <= i < j < s.len() ==> #[trigger] s[i] != #[trigger] s[j]
}

/// Moving a plugin within a ranking gives a ranking, in which the moved
/// plugin has the priority it was moved to.
pub proof fn lemma_reorder_keeps_ranking(s: Seq<u32>, from: u32, to: u32)
    requires
        is_ranking(s),
        from < s.len(),
        to < s.len(),
    ensures
        is_ranking(reordered(s, from, to)),
        forall|i: int| 0 <= i < s.len() && s[i] == from ==> #[trigger] reordered(s, from, to)[i] == to,
{
    let r = reordered(s, from, to);
    assert forall|i: int| 0 <= i < r.len() implies (#[trigger] r[i]) < r.len() by {
        assert(r[i] == moved_priority(s[i], from, to));
        assert(s[i] < s.len());
    }
    assert forall|i: int, j: int| 0 <= i < j < r.len() implies #[trigger] r[i] != #[trigger] r[j] by {
        assert(r[i] == moved_priority(s[i], from, to));
        assert(r[j] == moved_priority(s[j], from, to));
        assert(s[i] != s[j]);
    }
}

/// Moving the plugin of priority `from` to priority `to`: that plugin takes
/// `to`; moved to a later place (`from < to`), each plugin whose priority `p`
/// lies in `from < p <= to` takes `p - 1`; moved to an earlier place
/// (`to < from`), each whose `p` lies in `to <= p < from` takes `p + 1`; every
/// other priority stays.
pub proof fn lemma_reordered_shifts(s: Seq<u32>, from: u32, to: u32)
    ensures
        reordered(s, from, to).len() == s.len(),
        forall|i: int|
            0 <= i < s.len() ==> {
                let p = s[i];
                let q = #[trigger] reordered(s, from, to)[i];
                &&& p == from ==> q == to
                &&& p != from && from < to && from < p <= to ==> q == p - 1
                &&& p != from && to < from && to <= p < from ==> q == p + 1
                &&& p != from && !(from < to && from < p <= to) && !(to < from && to <= p < from)
                    ==> q == p
            },
{
}

} // verus!
