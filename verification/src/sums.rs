//! Sums of a quantity over the items of a sequence, and how they change when
//! the sequence does.

use vstd::prelude::*;
use vstd::seq_lib::{to_multiset_build, to_multiset_contains, to_multiset_len, to_multiset_remove};

verus! {

/// The values of `f` on all items of `items` together.
pub open spec fn sum_by<T>(items: Seq<T>, f: spec_fn(T) -> nat) -> nat
    decreases items.len(),
{
    if items.len() == 0 {
        0
    } else {
        sum_by(items.drop_last(), f) + f(items.last())
    }
}

/// An item put at the end adds its value.
pub proof fn lemma_sum_push<T>(items: Seq<T>, item: T, f: spec_fn(T) -> nat)
    ensures
        sum_by(items.push(item), f) == sum_by(items, f) + f(item),
{
    assert(items.push(item).drop_last() =~= items);
}

/// An item that replaces another changes the sum by the difference of their
/// values.
pub proof fn lemma_sum_update<T>(items: Seq<T>, k: int, item: T, f: spec_fn(T) -> nat)
    requires
        0 <= k < items.len(),
    ensures
        sum_by(items.update(k, item), f) + f(items[k]) == sum_by(items, f) + f(item),
    decreases items.len(),
{
    let changed = items.update(k, item);
    if k == items.len() - 1 {
        assert(changed.drop_last() =~= items.drop_last());
    } else {
        assert(changed.drop_last() =~= items.drop_last().update(k, item));
        lemma_sum_update(items.drop_last(), k, item, f);
    }
}

/// An item taken out takes its value with it.
pub proof fn lemma_sum_remove<T>(items: Seq<T>, k: int, f: spec_fn(T) -> nat)
    requires
        0 <= k < items.len(),
    ensures
        sum_by(items.remove(k), f) + f(items[k]) == sum_by(items, f),
    decreases items.len(),
{
    let less = items.remove(k);
    if k < items.len() - 1 {
        assert(less.drop_last() =~= items.drop_last().remove(k));
        lemma_sum_remove(items.drop_last(), k, f);
    }
}

/// No item's value is larger than the sum.
pub proof fn lemma_sum_member<T>(items: Seq<T>, k: int, f: spec_fn(T) -> nat)
    requires
        0 <= k < items.len(),
    ensures
        f(items[k]) <= sum_by(items, f),
    decreases items.len(),
{
    if k < items.len() - 1 {
        lemma_sum_member(items.drop_last(), k, f);
    }
}

/// Where every item has the value zero, so has the sum.
pub proof fn lemma_sum_zero<T>(items: Seq<T>, f: spec_fn(T) -> nat)
    requires
        forall|k: int| 0 <= k < items.len() ==> f(#[trigger] items[k]) == 0,
    ensures
        sum_by(items, f) == 0,
    decreases items.len(),
{
    if items.len() > 0 {
        let front = items.drop_last();
        lemma_sum_zero(front, f);
    }
}

/// The sum does not depend on the order of the items.
pub proof fn lemma_sum_permutation<T>(a: Seq<T>, b: Seq<T>, f: spec_fn(T) -> nat)
    requires
        a.to_multiset() == b.to_multiset(),
    ensures
        sum_by(a, f) == sum_by(b, f),
    decreases a.len(),
{
    to_multiset_len(a);
    to_multiset_len(b);
    if a.len() > 0 {
        let x = a.last();
        let front = a.drop_last();
        assert(front.push(x) =~= a);
        to_multiset_build(front, x);
        to_multiset_contains(b, x);
        let j = choose|j: int| 0 <= j < b.len() && b[j] == x;
        to_multiset_remove(b, j);
        assert(front.to_multiset() =~= b.remove(j).to_multiset());
        lemma_sum_permutation(front, b.remove(j), f);
        lemma_sum_remove(b, j, f);
    }
}

} // verus!
