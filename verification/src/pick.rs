//! Picking values out of a list.

use vstd::prelude::*;

verus! {

/// What the last item that gives a value gives.
pub open spec fn last_match<A, T>(items: Seq<A>, value: spec_fn(A) -> Option<T>) -> Option<T>
    decreases items.len(),
{
    if items.len() == 0 {
        None
    } else {
        match value(items.last()) {
            Some(v) => Some(v),
            None => last_match(items.drop_last(), value),
        }
    }
}

/// What the first item that gives a value gives.
pub open spec fn first_match<A, T>(items: Seq<A>, value: spec_fn(A) -> Option<T>) -> Option<T>
    decreases items.len(),
{
    if items.len() == 0 {
        None
    } else {
        match first_match(items.drop_last(), value) {
            Some(v) => Some(v),
            None => value(items.last()),
        }
    }
}

/// What each item gives, in order, without the items that give nothing.
pub open spec fn all_matches<A, T>(items: Seq<A>, value: spec_fn(A) -> Option<T>) -> Seq<T>
    decreases items.len(),
{
    if items.len() == 0 {
        Seq::empty()
    } else {
        let front = all_matches(items.drop_last(), value);
        match value(items.last()) {
            Some(v) => front.push(v),
            None => front,
        }
    }
}

/// The value, or another where there is none.
pub open spec fn value_or<T>(value: Option<T>, other: T) -> T {
    match value {
        Some(v) => v,
        None => other,
    }
}

/// What the picks of the first `n + 1` items are, from those of the first `n`.
pub proof fn lemma_pick_next<A, T>(items: Seq<A>, n: int, value: spec_fn(A) -> Option<T>)
    requires
        0 <= n < items.len(),
    ensures
        last_match(items.take(n + 1), value) == match value(items[n]) {
            Some(v) => Some(v),
            None => last_match(items.take(n), value),
        },
        first_match(items.take(n + 1), value) == match first_match(items.take(n), value) {
            Some(v) => Some(v),
            None => value(items[n]),
        },
        all_matches(items.take(n + 1), value) == match value(items[n]) {
            Some(v) => all_matches(items.take(n), value).push(v),
            None => all_matches(items.take(n), value),
        },
{
    assert(items.take(n + 1).drop_last() =~= items.take(n));
    assert(items.take(n + 1).last() == items[n]);
}

/// A match among the first `n` items is the first match of all.
pub proof fn lemma_first_match_stays<A, T>(items: Seq<A>, n: int, value: spec_fn(A) -> Option<T>)
    requires
        0 <= n <= items.len(),
        first_match(items.take(n), value) is Some,
    ensures
        first_match(items, value) == first_match(items.take(n), value),
    decreases items.len(),
{
    if n == items.len() {
        assert(items.take(n) =~= items);
    } else {
        assert(items.drop_last().take(n) =~= items.take(n));
        lemma_first_match_stays(items.drop_last(), n, value);
    }
}

/// Every pick comes from an item.
pub proof fn lemma_all_matches_from<A, T>(items: Seq<A>, value: spec_fn(A) -> Option<T>, v: T)
    ensures
        all_matches(items, value).contains(v) <==> exists|i: int|
            0 <= i < items.len() && value(#[trigger] items[i]) == Some(v),
    decreases items.len(),
{
    if items.len() > 0 {
        let front = items.drop_last();
        lemma_all_matches_from(front, value, v);
        let picks = all_matches(front, value);
        let whole = all_matches(items, value);
        if whole.contains(v) {
            let k = choose|k: int| 0 <= k < whole.len() && whole[k] == v;
            if k < picks.len() {
                assert(picks.contains(picks[k]));
                let i = choose|i: int| 0 <= i < front.len() && value(#[trigger] front[i]) == Some(v);
                assert(items[i] == front[i]);
            } else {
                assert(value(items[items.len() - 1]) == Some(v));
            }
        }
        if exists|i: int| 0 <= i < items.len() && value(#[trigger] items[i]) == Some(v) {
            let i = choose|i: int| 0 <= i < items.len() && value(#[trigger] items[i]) == Some(v);
            if i < front.len() {
                assert(front[i] == items[i]);
                let k = choose|k: int| 0 <= k < picks.len() && picks[k] == v;
                assert(whole[k] == v);
            } else {
                assert(whole.last() == v);
                assert(whole[whole.len() - 1] == v);
            }
        }
    }
}

/// Items that give the same give the same picks.
pub proof fn lemma_same_matches<A, T>(
    items: Seq<A>,
    f: spec_fn(A) -> Option<T>,
    g: spec_fn(A) -> Option<T>,
)
    requires
        forall|i: int| 0 <= i < items.len() ==> f(#[trigger] items[i]) == g(items[i]),
    ensures
        all_matches(items, f) == all_matches(items, g),
    decreases items.len(),
{
    if items.len() > 0 {
        let front = items.drop_last();
        assert forall|i: int| 0 <= i < front.len() implies f(#[trigger] front[i]) == g(
            front[i],
        ) by {
            assert(front[i] == items[i]);
        }
        lemma_same_matches(front, f, g);
        assert(f(items[items.len() - 1]) == g(items[items.len() - 1]));
    }
}

/// Where the last item that gives a value stands at `k`, it gives the last match.
pub proof fn lemma_last_at<A, T>(items: Seq<A>, value: spec_fn(A) -> Option<T>, k: int)
    requires
        0 <= k < items.len(),
        value(items[k]) is Some,
        forall|j: int| k < j < items.len() ==> value(#[trigger] items[j]) is None,
    ensures
        last_match(items, value) == value(items[k]),
    decreases items.len(),
{
    if k < items.len() - 1 {
        let front = items.drop_last();
        assert(value(items[items.len() - 1]) is None);
        assert forall|j: int| k < j < front.len() implies value(#[trigger] front[j]) is None by {
            assert(front[j] == items[j]);
        }
        lemma_last_at(front, value, k);
    }
}

/// Where the first item that gives a value stands at `k`, it gives the first match.
pub proof fn lemma_first_at<A, T>(items: Seq<A>, value: spec_fn(A) -> Option<T>, k: int)
    requires
        0 <= k < items.len(),
        value(items[k]) is Some,
        forall|j: int| 0 <= j < k ==> value(#[trigger] items[j]) is None,
    ensures
        first_match(items, value) == value(items[k]),
    decreases items.len(),
{
    let front = items.drop_last();
    assert forall|j: int| 0 <= j < front.len() && j < k implies value(#[trigger] front[j]) is None by {
        assert(front[j] == items[j]);
    }
    if k < items.len() - 1 {
        lemma_first_at(front, value, k);
    } else {
        lemma_no_match(front, value);
    }
}

/// Where no item gives a value, there is no match.
pub proof fn lemma_no_match<A, T>(items: Seq<A>, value: spec_fn(A) -> Option<T>)
    requires
        forall|j: int| 0 <= j < items.len() ==> value(#[trigger] items[j]) is None,
    ensures
        last_match(items, value) is None,
        first_match(items, value) is None,
    decreases items.len(),
{
    if items.len() > 0 {
        let front = items.drop_last();
        assert(value(items[items.len() - 1]) is None);
        assert forall|j: int| 0 <= j < front.len() implies value(#[trigger] front[j]) is None by {
            assert(front[j] == items[j]);
        }
        lemma_no_match(front, value);
    }
}

/// Where an item gives a value, there is a first and a last match.
pub proof fn lemma_some_match<A, T>(items: Seq<A>, value: spec_fn(A) -> Option<T>, k: int)
    requires
        0 <= k < items.len(),
        value(items[k]) is Some,
    ensures
        last_match(items, value) is Some,
        first_match(items, value) is Some,
    decreases items.len(),
{
    if k < items.len() - 1 {
        assert(items.drop_last()[k] == items[k]);
        lemma_some_match(items.drop_last(), value, k);
    }
}

/// The picks of two lists together are those of the first, then those of the second.
pub proof fn lemma_matches_of_sum<A, T>(a: Seq<A>, b: Seq<A>, value: spec_fn(A) -> Option<T>)
    ensures
        all_matches(a + b, value) == all_matches(a, value) + all_matches(b, value),
    decreases b.len(),
{
    if b.len() == 0 {
        assert(a + b =~= a);
        assert(all_matches(a, value) + all_matches(b, value) =~= all_matches(a, value));
    } else {
        let front = b.drop_last();
        lemma_matches_of_sum(a, front, value);
        assert((a + b).drop_last() =~= a + front);
        assert((a + b).last() == b.last());
        assert(all_matches(a + b, value) =~= all_matches(a, value) + all_matches(b, value));
    }
}

/// The picks of one item are what it gives.
pub proof fn lemma_matches_of_one<A, T>(item: A, value: spec_fn(A) -> Option<T>)
    ensures
        all_matches(seq![item], value) == match value(item) {
            Some(v) => seq![v],
            None => Seq::empty(),
        },
{
    assert(seq![item].drop_last() =~= Seq::<A>::empty());
    reveal_with_fuel(all_matches, 2);
    assert(all_matches(Seq::<A>::empty(), value) =~= Seq::<T>::empty());
    match value(item) {
        Some(v) => {
            assert(Seq::<T>::empty().push(v) =~= seq![v]);
        },
        None => {},
    }
}

} // verus!
