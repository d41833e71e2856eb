//! Text in alphabetical order.

use vstd::prelude::*;

use crate::text::{chars_of, strings};

verus! {

/// Whether `a` and `b` agree up to `k`, where `a` ends or has the lesser character.
pub open spec fn less_at(a: Seq<char>, b: Seq<char>, k: int) -> bool {
    &&& 0 <= k <= a.len()
    &&& k < b.len()
    &&& forall|j: int| 0 <= j < k ==> a[j] == b[j]
    &&& k == a.len() || a[k] < b[k]
}

/// Whether `a` comes before `b`: by code points, the first difference deciding, and a
/// beginning before what it begins.
pub open spec fn less(a: Seq<char>, b: Seq<char>) -> bool {
    exists|k: int| less_at(a, b, k)
}

/// Whether each item comes before all that follow it.
pub open spec fn increasing(items: Seq<Seq<char>>) -> bool {
    forall|i: int, j: int| 0 <= i < j < items.len() ==> less(#[trigger] items[i], #[trigger] items[j])
}

/// Whether two lists hold the same items, in whatever order and number.
pub open spec fn same_items(a: Seq<Seq<char>>, b: Seq<Seq<char>>) -> bool {
    forall|s: Seq<char>| #[trigger] a.contains(s) == b.contains(s)
}

/// The items in order, each once.
pub open spec fn in_order(items: Seq<Seq<char>>) -> Seq<Seq<char>> {
    choose|list: Seq<Seq<char>>| increasing(list) && same_items(list, items)
}

/// No text comes before itself.
pub proof fn lemma_less_irreflexive(a: Seq<char>)
    ensures
        !less(a, a),
{
}

/// What comes before comes before all that follows.
pub proof fn lemma_less_transitive(a: Seq<char>, b: Seq<char>, c: Seq<char>)
    requires
        less(a, b),
        less(b, c),
    ensures
        less(a, c),
{
    let k = choose|k: int| less_at(a, b, k);
    let l = choose|l: int| less_at(b, c, l);
    if k <= l {
        assert(less_at(a, c, k));
    } else {
        assert(less_at(a, c, l));
    }
}

/// Where two texts first differ.
proof fn lemma_first_difference(a: Seq<char>, b: Seq<char>, k: int) -> (l: int)
    requires
        0 <= k <= a.len(),
        k <= b.len(),
        forall|j: int| 0 <= j < k ==> a[j] == b[j],
    ensures
        k <= l <= a.len(),
        l <= b.len(),
        forall|j: int| 0 <= j < l ==> a[j] == b[j],
        l == a.len() || l == b.len() || a[l] != b[l],
    decreases a.len() - k,
{
    if k == a.len() || k == b.len() || a[k] != b[k] {
        k
    } else {
        lemma_first_difference(a, b, k + 1)
    }
}

/// Of two different texts one comes before the other.
pub proof fn lemma_less_total(a: Seq<char>, b: Seq<char>)
    ensures
        less(a, b) || a == b || less(b, a),
{
    let l = lemma_first_difference(a, b, 0);
    if l == a.len() && l == b.len() {
        assert(a =~= b);
    } else if l == a.len() {
        assert(less_at(a, b, l));
    } else if l == b.len() {
        assert(less_at(b, a, l));
    } else if a[l] < b[l] {
        assert(less_at(a, b, l));
    } else {
        assert(less_at(b, a, l));
    }
}

/// Of two lists in order with the same items, each item stands at the same place.
pub proof fn law_increasing_unique(a: Seq<Seq<char>>, b: Seq<Seq<char>>)
    requires
        increasing(a),
        increasing(b),
        same_items(a, b),
    ensures
        a == b,
    decreases a.len(),
{
    if a.len() == 0 {
        if b.len() > 0 {
            assert(b.contains(b[0]));
            assert(a.contains(b[0]));
        }
        assert(a =~= b);
    } else {
        assert(a.contains(a[0]));
        assert(b.contains(a[0]));
        assert(b.len() > 0);
        let x = a.last();
        let y = b.last();
        assert(a.contains(x));
        assert(b.contains(y));
        assert(b.contains(x) && a.contains(y));
        let i = choose|i: int| 0 <= i < b.len() && b[i] == x;
        let j = choose|j: int| 0 <= j < a.len() && a[j] == y;
        if x != y {
            assert(less(b[i], b[b.len() - 1]));
            assert(less(a[j], a[a.len() - 1]));
            lemma_less_transitive(x, y, x);
            lemma_less_irreflexive(x);
        }
        let p = a.drop_last();
        let q = b.drop_last();
        assert(increasing(p)) by {
            assert forall|i: int, j: int| 0 <= i < j < p.len() implies less(
                #[trigger] p[i],
                #[trigger] p[j],
            ) by {
                assert(less(a[i], a[j]));
            }
        }
        assert(increasing(q)) by {
            assert forall|i: int, j: int| 0 <= i < j < q.len() implies less(
                #[trigger] q[i],
                #[trigger] q[j],
            ) by {
                assert(less(b[i], b[j]));
            }
        }
        assert forall|s: Seq<char>| #[trigger] p.contains(s) == q.contains(s) by {
            lemma_all_but_last(a, s);
            lemma_all_but_last(b, s);
            assert(a.contains(s) == b.contains(s));
        }
        law_increasing_unique(p, q);
        assert(a =~= p.push(x));
        assert(b =~= q.push(y));
    }
}

/// What a list in order holds without its last item.
proof fn lemma_all_but_last(a: Seq<Seq<char>>, s: Seq<char>)
    requires
        increasing(a),
        a.len() > 0,
    ensures
        a.drop_last().contains(s) == (a.contains(s) && s != a.last()),
{
    let p = a.drop_last();
    if p.contains(s) {
        let i = choose|i: int| 0 <= i < p.len() && p[i] == s;
        assert(a[i] == s);
        assert(less(a[i], a[a.len() - 1]));
        lemma_less_irreflexive(s);
    }
    if a.contains(s) && s != a.last() {
        let i = choose|i: int| 0 <= i < a.len() && a[i] == s;
        assert(p[i] == s);
    }
}

/// A list in order with the right items is the one that [`in_order`] speaks of.
pub proof fn lemma_in_order(list: Seq<Seq<char>>, items: Seq<Seq<char>>)
    requires
        increasing(list),
        same_items(list, items),
    ensures
        in_order(items) == list,
{
    let chosen = in_order(items);
    assert(increasing(chosen) && same_items(chosen, items));
    assert forall|s: Seq<char>| #[trigger] chosen.contains(s) == list.contains(s) by {
        assert(list.contains(s) == items.contains(s));
    }
    law_increasing_unique(chosen, list);
}

/// Whether `a` comes before `b`.
pub fn text_less(a: &str, b: &str) -> (r: bool)
    ensures
        r == less(a@, b@),
{
    let x = chars_of(a);
    let y = chars_of(b);
    let mut k: usize = 0;
    while k < x.len() && k < y.len() && x[k] == y[k]
        invariant
            k <= x.len(),
            k <= y.len(),
            x@ == a@,
            y@ == b@,
            forall|j: int| 0 <= j < k ==> a@[j] == b@[j],
        decreases x.len() - k,
    {
        k = k + 1;
    }
    if k < y.len() && (k == x.len() || x[k] < y[k]) {
        assert(less_at(a@, b@, k as int));
        true
    } else {
        assert forall|l: int| !less_at(a@, b@, l) by {
            if less_at(a@, b@, l) {
                if l < k {
                    assert(a@[l] == b@[l]);
                } else if l > k {
                    assert(a@[k as int] == b@[k as int]);
                }
            }
        }
        false
    }
}

/// Puts an item in its place in a list in order, unless it is there already.
pub fn insert_in_order(list: &mut Vec<String>, item: String)
    requires
        increasing(strings(old(list)@)),
    ensures
        increasing(strings(final(list)@)),
        same_items(strings(final(list)@), strings(old(list)@).push(item@)),
{
    let ghost before = strings(list@);
    let mut i: usize = 0;
    while i < list.len() && text_less(list[i].as_str(), item.as_str())
        invariant
            i <= list.len(),
            before == strings(list@),
            forall|j: int| 0 <= j < i ==> less(#[trigger] before[j], item@),
        decreases list.len() - i,
    {
        assert(before[i as int] == list@[i as int]@);
        i = i + 1;
    }
    if i < list.len() && !text_less(item.as_str(), list[i].as_str()) {
        proof {
            assert(before[i as int] == list@[i as int]@);
            lemma_less_total(before[i as int], item@);
            lemma_push_held(before, item@);
        }
        return;
    }
    let ghost text = item@;
    list.insert(i, item);
    proof {
        assert(strings(list@) =~= before.insert(i as int, text));
        lemma_insert(before, i as int, text);
    }
}

/// A list in order stays so with one more item in its place.
proof fn lemma_insert(before: Seq<Seq<char>>, i: int, text: Seq<char>)
    requires
        increasing(before),
        0 <= i <= before.len(),
        forall|j: int| 0 <= j < i ==> less(#[trigger] before[j], text),
        i < before.len() ==> less(text, before[i]),
    ensures
        increasing(before.insert(i, text)),
        same_items(before.insert(i, text), before.push(text)),
{
    let after = before.insert(i, text);
    assert forall|p: int, q: int| 0 <= p < q < after.len() implies less(
        #[trigger] after[p],
        #[trigger] after[q],
    ) by {
        if p < i && q == i {
            assert(after[p] == before[p]);
        } else if p < i && q > i {
            assert(less(before[p], before[q - 1]));
        } else if q < i {
            assert(less(before[p], before[q]));
        } else if p == i {
            if q - 1 > i {
                assert(less(before[i as int], before[q - 1]));
                lemma_less_transitive(text, before[i as int], before[q - 1]);
            }
        } else {
            assert(less(before[p - 1], before[q - 1]));
        }
    }
    let pushed = before.push(text);
    assert forall|s: Seq<char>| #[trigger] after.contains(s) == pushed.contains(s) by {
        if after.contains(s) {
            let k = choose|k: int| 0 <= k < after.len() && after[k] == s;
            if k < i {
                assert(pushed[k] == s);
            } else if k == i {
                assert(pushed[before.len() as int] == s);
            } else {
                assert(pushed[k - 1] == s);
            }
        }
        if pushed.contains(s) {
            let k = choose|k: int| 0 <= k < pushed.len() && pushed[k] == s;
            if k == before.len() {
                assert(after[i as int] == s);
            } else if k < i {
                assert(after[k] == s);
            } else {
                assert(after[k + 1] == s);
            }
        }
    }
}

/// The first place in a list whose item does not come before `text`.
proof fn lemma_place(list: Seq<Seq<char>>, text: Seq<char>, from: int) -> (i: int)
    requires
        0 <= from <= list.len(),
        forall|j: int| 0 <= j < from ==> less(#[trigger] list[j], text),
    ensures
        0 <= i <= list.len(),
        forall|j: int| 0 <= j < i ==> less(#[trigger] list[j], text),
        i < list.len() ==> !less(list[i], text),
    decreases list.len() - from,
{
    if from == list.len() || !less(list[from], text) {
        from
    } else {
        lemma_place(list, text, from + 1)
    }
}

/// Any items can be put in order, each once.
pub proof fn law_in_order(items: Seq<Seq<char>>)
    ensures
        increasing(in_order(items)),
        same_items(in_order(items), items),
    decreases items.len(),
{
    if items.len() == 0 {
        assert(increasing(items) && same_items(items, items));
    } else {
        let front = items.drop_last();
        let text = items.last();
        law_in_order(front);
        let list = in_order(front);
        let i = lemma_place(list, text, 0);
        let pushed = list.push(text);
        let result = if i < list.len() && list[i] == text {
            list
        } else {
            list.insert(i, text)
        };
        if i < list.len() && list[i] == text {
            lemma_push_held(list, text);
        } else {
            if i < list.len() {
                lemma_less_total(list[i], text);
            }
            lemma_insert(list, i, text);
        }
        assert forall|s: Seq<char>| #[trigger] result.contains(s) == items.contains(s) by {
            assert(result.contains(s) == pushed.contains(s));
            assert(list.contains(s) == front.contains(s));
            assert(items =~= front.push(text));
            lemma_push_contains(list, text, s);
            lemma_push_contains(front, text, s);
        }
        assert(increasing(result) && same_items(result, items));
    }
}

/// What a list holds with one more item.
pub proof fn lemma_push_contains(items: Seq<Seq<char>>, item: Seq<char>, s: Seq<char>)
    ensures
        items.push(item).contains(s) == (items.contains(s) || s == item),
{
    let pushed = items.push(item);
    if items.contains(s) {
        let k = choose|k: int| 0 <= k < items.len() && items[k] == s;
        assert(pushed[k] == s);
    }
    if s == item {
        assert(pushed[items.len() as int] == s);
    }
    if pushed.contains(s) {
        let k = choose|k: int| 0 <= k < pushed.len() && pushed[k] == s;
        if k < items.len() {
            assert(items[k] == s);
        }
    }
}

/// What two lists hold together.
pub proof fn lemma_sum_contains(a: Seq<Seq<char>>, b: Seq<Seq<char>>, s: Seq<char>)
    ensures
        (a + b).contains(s) == (a.contains(s) || b.contains(s)),
{
    let both = a + b;
    if a.contains(s) {
        let k = choose|k: int| 0 <= k < a.len() && a[k] == s;
        assert(both[k] == s);
    }
    if b.contains(s) {
        let k = choose|k: int| 0 <= k < b.len() && b[k] == s;
        assert(both[a.len() + k] == s);
    }
    if both.contains(s) {
        let k = choose|k: int| 0 <= k < both.len() && both[k] == s;
        if k < a.len() {
            assert(a[k] == s);
        } else {
            assert(b[k - a.len()] == s);
        }
    }
}

/// One more of an item that is held already changes nothing.
proof fn lemma_push_held(items: Seq<Seq<char>>, item: Seq<char>)
    requires
        items.contains(item),
    ensures
        same_items(items, items.push(item)),
{
    assert forall|s: Seq<char>| #[trigger] items.contains(s) == items.push(item).contains(s) by {
        lemma_push_contains(items, item, s);
    }
}

} // verus!
