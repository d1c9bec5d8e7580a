//! The priority order of a target list: most specific first, and among
//! equally specific targets the one declared first.

use crate::target::{Target, TargetView};
use vstd::prelude::*;

verus! {

/// Whether the target at index `a` has priority over the one at index `b`:
/// it is more specific, or as specific and declared earlier.
pub open spec fn outranks(weights: Seq<nat>, a: int, b: int) -> bool {
    weights[a] > weights[b] || (weights[a] == weights[b] && a < b)
}

/// Whether `order` lists the first `n` indices of `weights`, each once, so
/// that every entry has priority over all that follow it.
pub open spec fn orders_first(weights: Seq<nat>, n: int, order: Seq<int>) -> bool {
    &&& order.len() == n
    &&& forall|i: int| 0 <= i < order.len() ==> 0 <= #[trigger] order[i] < n
    &&& forall|k: int| 0 <= k < n ==> order.contains(k)
    &&& forall|i: int, j: int|
        0 <= i < j < order.len() ==> outranks(weights, #[trigger] order[i], #[trigger] order[j])
}

/// Whether `order` is a priority order of the list whose specificities are
/// `weights`: a permutation of its indices that is sorted by descending
/// specificity and keeps equally specific entries in declaration order.
pub open spec fn is_priority_order(weights: Seq<nat>, order: Seq<int>) -> bool {
    orders_first(weights, weights.len() as int, order)
}

/// The priority order of the list whose specificities are `weights`, as
/// indices into that list.
pub open spec fn priority_order(weights: Seq<nat>) -> Seq<int> {
    choose|order: Seq<int>| is_priority_order(weights, order)
}

/// Where a new entry `k`, declared after all of `order`, goes into `order`:
/// behind every entry that is at least as specific.
pub open spec fn slot(weights: Seq<nat>, order: Seq<int>, k: int) -> int
    decreases order.len(),
{
    if order.len() == 0 || outranks(weights, order.last(), k) {
        order.len() as int
    } else {
        slot(weights, order.drop_last(), k)
    }
}

/// The order built by placing the indices `0..n` one after another.
pub open spec fn built_order(weights: Seq<nat>, n: nat) -> Seq<int>
    decreases n,
{
    if n == 0 {
        Seq::<int>::empty()
    } else {
        let before = built_order(weights, (n - 1) as nat);
        before.insert(slot(weights, before, n - 1), n - 1)
    }
}

proof fn slot_divides(weights: Seq<nat>, order: Seq<int>, k: int)
    requires
        0 <= k < weights.len(),
        orders_first(weights, k, order),
    ensures
        0 <= slot(weights, order, k) <= order.len(),
        forall|i: int| 0 <= i < slot(weights, order, k) ==> outranks(weights, #[trigger] order[i], k),
        forall|i: int|
            slot(weights, order, k) <= i < order.len() ==> outranks(weights, k, #[trigger] order[i]),
{
    slot_divides_sorted(weights, order, k, k);
}

proof fn slot_divides_sorted(weights: Seq<nat>, order: Seq<int>, k: int, bound: int)
    requires
        0 <= k < weights.len(),
        bound <= k,
        forall|i: int| 0 <= i < order.len() ==> 0 <= #[trigger] order[i] < bound,
        forall|i: int, j: int|
            0 <= i < j < order.len() ==> outranks(weights, #[trigger] order[i], #[trigger] order[j]),
    ensures
        0 <= slot(weights, order, k) <= order.len(),
        forall|i: int| 0 <= i < slot(weights, order, k) ==> outranks(weights, #[trigger] order[i], k),
        forall|i: int|
            slot(weights, order, k) <= i < order.len() ==> outranks(weights, k, #[trigger] order[i]),
    decreases order.len(),
{
    if order.len() == 0 {
    } else if outranks(weights, order.last(), k) {
        assert forall|i: int| 0 <= i < order.len() implies outranks(
            weights,
            #[trigger] order[i],
            k,
        ) by {
            if i < order.len() - 1 {
                assert(outranks(weights, order[i], order[order.len() - 1]));
            }
        }
    } else {
        let shorter = order.drop_last();
        assert forall|i: int, j: int| 0 <= i < j < shorter.len() implies outranks(
            weights,
            #[trigger] shorter[i],
            #[trigger] shorter[j],
        ) by {
            assert(shorter[i] == order[i] && shorter[j] == order[j]);
        }
        assert forall|i: int| 0 <= i < shorter.len() implies 0 <= #[trigger] shorter[i] < bound by {
            assert(shorter[i] == order[i]);
        }
        slot_divides_sorted(weights, shorter, k, bound);
        let p = slot(weights, shorter, k);
        assert forall|i: int| 0 <= i < p implies outranks(weights, #[trigger] order[i], k) by {
            assert(order[i] == shorter[i]);
        }
        assert forall|i: int| p <= i < order.len() implies outranks(
            weights,
            k,
            #[trigger] order[i],
        ) by {
            if i < order.len() - 1 {
                assert(order[i] == shorter[i]);
            } else {
                assert(order[i] == order.last());
                assert(order[i] < k);
            }
        }
    }
}

proof fn placing_keeps_order(weights: Seq<nat>, order: Seq<int>, k: int)
    requires
        0 <= k < weights.len(),
        orders_first(weights, k, order),
    ensures
        orders_first(weights, k + 1, order.insert(slot(weights, order, k), k)),
{
    slot_divides(weights, order, k);
    let p = slot(weights, order, k);
    let next = order.insert(p, k);
    assert forall|i: int| 0 <= i < next.len() implies 0 <= #[trigger] next[i] < k + 1 by {
        if i < p {
            assert(next[i] == order[i]);
        } else if i > p {
            assert(next[i] == order[i - 1]);
        }
    }
    assert forall|x: int| 0 <= x < k + 1 implies next.contains(x) by {
        if x == k {
            assert(next[p] == k);
        } else {
            assert(order.contains(x));
            let i = choose|i: int| 0 <= i < order.len() && order[i] == x;
            if i < p {
                assert(next[i] == x);
            } else {
                assert(next[i + 1] == x);
            }
        }
    }
    assert forall|i: int, j: int| 0 <= i < j < next.len() implies outranks(
        weights,
        #[trigger] next[i],
        #[trigger] next[j],
    ) by {
        let a = if i < p { i } else { i - 1 };
        let b = if j < p { j } else { j - 1 };
        if i == p {
            assert(next[j] == order[j - 1]);
        } else if j == p {
            assert(next[i] == order[i]);
        } else {
            assert(next[i] == order[a]);
            assert(next[j] == order[b]);
            assert(outranks(weights, order[a], order[b]));
        }
    }
}

/// The order built by placing is a priority order of the indices placed.
pub proof fn built_order_is_sorted(weights: Seq<nat>, n: nat)
    requires
        n <= weights.len(),
    ensures
        orders_first(weights, n as int, built_order(weights, n)),
    decreases n,
{
    if n > 0 {
        built_order_is_sorted(weights, (n - 1) as nat);
        placing_keeps_order(weights, built_order(weights, (n - 1) as nat), n - 1);
    }
}

proof fn orders_agree_upto(weights: Seq<nat>, a: Seq<int>, b: Seq<int>, n: int)
    requires
        is_priority_order(weights, a),
        is_priority_order(weights, b),
        0 <= n <= weights.len(),
    ensures
        forall|i: int| 0 <= i < n ==> a[i] == b[i],
    decreases n,
{
    if n > 0 {
        orders_agree_upto(weights, a, b, n - 1);
        let i = n - 1;
        let x = a[i];
        let y = b[i];
        if x != y {
            assert(b.contains(x));
            let j = choose|j: int| 0 <= j < b.len() && b[j] == x;
            assert(a.contains(y));
            let h = choose|h: int| 0 <= h < a.len() && a[h] == y;
            if j < i {
                assert(a[j] == b[j]);
                assert(outranks(weights, a[j], a[i]));
            } else if h < i {
                assert(a[h] == b[h]);
                assert(outranks(weights, b[h], b[i]));
            } else {
                assert(outranks(weights, b[i], b[j]));
                assert(outranks(weights, a[i], a[h]));
            }
        }
    }
}

/// A list has exactly one priority order.
pub proof fn priority_order_is_unique(weights: Seq<nat>, a: Seq<int>, b: Seq<int>)
    requires
        is_priority_order(weights, a),
        is_priority_order(weights, b),
    ensures
        a == b,
{
    orders_agree_upto(weights, a, b, weights.len() as int);
    assert(a =~= b);
}

/// Every list has a priority order, and `priority_order` names it.
pub proof fn priority_order_exists(weights: Seq<nat>)
    ensures
        is_priority_order(weights, priority_order(weights)),
        priority_order(weights) == built_order(weights, weights.len()),
{
    built_order_is_sorted(weights, weights.len());
    let built = built_order(weights, weights.len());
    assert(is_priority_order(weights, built));
    priority_order_is_unique(weights, priority_order(weights), built);
}

/// A more specific target precedes every less specific one: where the
/// target declared at `a` requires more capabilities than the one declared at
/// `b`, it stands before it in the priority order.
pub proof fn more_specific_comes_first(weights: Seq<nat>, a: int, b: int, i: int, j: int)
    requires
        0 <= i < weights.len(),
        0 <= j < weights.len(),
        priority_order(weights)[i] == a,
        priority_order(weights)[j] == b,
        weights[a] > weights[b],
    ensures
        i < j,
{
    priority_order_exists(weights);
    let order = priority_order(weights);
    if j < i {
        assert(outranks(weights, order[j], order[i]));
    }
}

/// Equally specific targets keep their declaration order: where the targets
/// declared at `a` and at `b` require equally many capabilities and `a` was
/// declared first, `a` stands before `b` in the priority order.
pub proof fn equal_specificity_keeps_declaration_order(
    weights: Seq<nat>,
    a: int,
    b: int,
    i: int,
    j: int,
)
    requires
        0 <= i < weights.len(),
        0 <= j < weights.len(),
        priority_order(weights)[i] == a,
        priority_order(weights)[j] == b,
        weights[a] == weights[b],
        a < b,
    ensures
        i < j,
{
    priority_order_exists(weights);
    let order = priority_order(weights);
    if j < i {
        assert(outranks(weights, order[j], order[i]));
    }
}

/// Every declared target has a place in the priority order.
pub proof fn every_target_is_ranked(weights: Seq<nat>, k: int)
    requires
        0 <= k < weights.len(),
    ensures
        exists|i: int| 0 <= i < weights.len() && priority_order(weights)[i] == k,
{
    priority_order_exists(weights);
    let order = priority_order(weights);
    assert(order.contains(k));
    let i = choose|i: int| 0 <= i < order.len() && order[i] == k;
    assert(0 <= i < weights.len() && priority_order(weights)[i] == k);
}

/// The views of a sequence of targets.
pub open spec fn views(targets: Seq<Target>) -> Seq<TargetView> {
    Seq::new(targets.len(), |i: int| targets[i]@)
}

/// The specificity of each target of a list.
pub open spec fn specificities(targets: Seq<TargetView>) -> Seq<nat> {
    Seq::new(targets.len(), |i: int| targets[i].specificity())
}

/// `targets` rearranged into priority order.
pub open spec fn prioritized(targets: Seq<TargetView>) -> Seq<TargetView> {
    let order = priority_order(specificities(targets));
    Seq::new(targets.len(), |i: int| targets[order[i]])
}

/// The priority order holds every target of the list once, and in it no
/// target stands behind a less specific one.
pub proof fn prioritized_descends(targets: Seq<TargetView>, i: int, j: int)
    requires
        0 <= i <= j < targets.len(),
    ensures
        prioritized(targets).len() == targets.len(),
        prioritized(targets)[i].specificity() >= prioritized(targets)[j].specificity(),
{
    let weights = specificities(targets);
    priority_order_exists(weights);
    let order = priority_order(weights);
    if i < j {
        assert(outranks(weights, order[i], order[j]));
    }
}

/// The indices of a vector as mathematical integers.
pub open spec fn as_ints(indices: Seq<usize>) -> Seq<int> {
    Seq::new(indices.len(), |i: int| indices[i] as int)
}

/// Computes the priority order of `targets` as indices into it.
pub fn priority_indices(targets: &Vec<Target>) -> (order: Vec<usize>)
    ensures
        as_ints(order@) == priority_order(specificities(views(targets@))),
        order.len() == targets.len(),
        forall|i: int| 0 <= i < order.len() ==> #[trigger] order[i] < targets.len(),
{
    let ghost weights = specificities(views(targets@));
    let mut order: Vec<usize> = Vec::new();
    let mut k: usize = 0;
    assert(as_ints(order@) =~= built_order(weights, 0));
    while k < targets.len()
        invariant
            k <= targets.len(),
            weights == specificities(views(targets@)),
            weights.len() == targets.len(),
            order.len() == k,
            as_ints(order@) == built_order(weights, k as nat),
        decreases targets.len() - k,
    {
        let ghost before = as_ints(order@);
        let weight: usize = targets[k].specificity();
        assert(weight == weights[k as int]);
        proof {
            built_order_is_sorted(weights, k as nat);
        }
        let mut p: usize = order.len();
        assert(before.take(p as int) =~= before);
        while p > 0 && targets[order[p - 1]].specificity() < weight
            invariant
                p <= order.len(),
                order.len() == k,
                k < targets.len(),
                before == as_ints(order@),
                weights == specificities(views(targets@)),
                weights.len() == targets.len(),
                weight == weights[k as int],
                orders_first(weights, k as int, before),
                slot(weights, before, k as int) == slot(weights, before.take(p as int), k as int),
            decreases p,
        {
            let ghost shown = before.take(p as int);
            assert(shown.last() == before[p - 1]);
            assert(shown.drop_last() =~= before.take(p - 1));
            assert(before[p - 1] == order[p - 1] as int);
            p -= 1;
        }
        proof {
            let shown = before.take(p as int);
            if p > 0 {
                assert(shown.last() == before[p - 1]);
                assert(before[p - 1] == order[p - 1] as int);
                assert(before[p - 1] < k);
                assert(outranks(weights, shown.last(), k as int));
            }
            assert(slot(weights, shown, k as int) == p);
        }
        order.insert(p, k);
        assert(as_ints(order@) =~= before.insert(p as int, k as int));
        k += 1;
    }
    proof {
        priority_order_exists(weights);
        built_order_is_sorted(weights, weights.len());
        assert forall|i: int| 0 <= i < order.len() implies #[trigger] order[i] < targets.len() by {
            assert(as_ints(order@)[i] == order[i] as int);
        }
    }
    order
}

} // verus!
