//! Stable sorting by lists of texts.

use vstd::prelude::*;
use vstd::relations::*;
use crate::text;

verus! {

/// A sort key: texts that are compared one after the other.
pub type SortKey = Seq<Seq<char>>;

/// Whether key `a` comes before key `b` in the lexicographic order.
pub open spec fn key_lt(a: SortKey, b: SortKey) -> bool
    decreases b.len(),
{
    if b.len() == 0 {
        false
    } else if a.len() == 0 {
        true
    } else if a[0] == b[0] {
        key_lt(a.drop_first(), b.drop_first())
    } else {
        text::text_lt(a[0], b[0])
    }
}

/// Whether index `i` comes before index `j` when the keys are sorted and equal
/// keys stay in their given order.
pub open spec fn precedes(keys: Seq<SortKey>, i: int, j: int) -> bool {
    ||| key_lt(keys[i], keys[j])
    ||| keys[i] == keys[j] && i < j
}

/// Whether `order` lists the indices of `keys` sorted by key, equal keys in
/// their given order.
pub open spec fn is_stable_order(keys: Seq<SortKey>, order: Seq<int>) -> bool {
    &&& order.len() == keys.len()
    &&& forall|i: int| 0 <= i < order.len() ==> 0 <= #[trigger] order[i] < keys.len()
    &&& forall|i: int, j: int|
        0 <= i < j < order.len() ==> precedes(keys, #[trigger] order[i], #[trigger] order[j])
}

/// The order of indices behind `stable_order`.
pub open spec fn index_order(keys: Seq<SortKey>) -> spec_fn(int, int) -> bool {
    |i: int, j: int| i == j || precedes(keys, i, j)
}

/// The indices of `keys`, sorted by key and then by index.
pub open spec fn stable_order(keys: Seq<SortKey>) -> Seq<int> {
    Seq::new(keys.len(), |i: int| i).sort_by(index_order(keys))
}

/// `items` rearranged so that the item at `order[i]` stands at place `i`.
pub open spec fn arranged<T>(items: Seq<T>, order: Seq<int>) -> Seq<T> {
    Seq::new(order.len(), |i: int| items[order[i]])
}

/// The order of keys is irreflexive.
pub proof fn key_lt_irreflexive(a: SortKey)
    ensures
        !key_lt(a, a),
    decreases a.len(),
{
    if a.len() > 0 {
        key_lt_irreflexive(a.drop_first());
    }
}

/// The order of keys is transitive.
pub proof fn key_lt_transitive(a: SortKey, b: SortKey, c: SortKey)
    requires
        key_lt(a, b),
        key_lt(b, c),
    ensures
        key_lt(a, c),
    decreases a.len(),
{
    if a.len() > 0 {
        if a[0] == b[0] && b[0] == c[0] {
            key_lt_transitive(a.drop_first(), b.drop_first(), c.drop_first());
        } else if a[0] != b[0] && b[0] != c[0] {
            text::text_lt_transitive(a[0], b[0], c[0]);
            text::text_lt_irreflexive(a[0]);
        }
    }
}

/// Of two different keys one comes before the other.
pub proof fn key_lt_total(a: SortKey, b: SortKey)
    ensures
        a == b || key_lt(a, b) || key_lt(b, a),
    decreases a.len(),
{
    if a.len() > 0 && b.len() > 0 {
        if a[0] == b[0] {
            key_lt_total(a.drop_first(), b.drop_first());
            if a.drop_first() == b.drop_first() {
                assert(a =~= seq![a[0]] + a.drop_first());
                assert(b =~= seq![b[0]] + b.drop_first());
            }
        } else {
            text::text_lt_total(a[0], b[0]);
        }
    } else if a.len() == 0 && b.len() == 0 {
        assert(a =~= b);
    }
}

proof fn precedes_transitive(keys: Seq<SortKey>, i: int, j: int, k: int)
    requires
        precedes(keys, i, j),
        precedes(keys, j, k),
    ensures
        precedes(keys, i, k),
{
    if key_lt(keys[i], keys[j]) && key_lt(keys[j], keys[k]) {
        key_lt_transitive(keys[i], keys[j], keys[k]);
    }
}

proof fn precedes_irreflexive(keys: Seq<SortKey>, i: int)
    ensures
        !precedes(keys, i, i),
{
    key_lt_irreflexive(keys[i]);
}

proof fn index_order_total(keys: Seq<SortKey>)
    ensures
        total_ordering(index_order(keys)),
{
    let leq = index_order(keys);
    assert forall|i: int, j: int| #[trigger] leq(i, j) && #[trigger] leq(j, i) implies i == j by {
        if i != j {
            precedes_transitive(keys, i, j, i);
            precedes_irreflexive(keys, i);
        }
    }
    assert forall|i: int, j: int, k: int| #[trigger] leq(i, j) && #[trigger] leq(j, k) implies leq(
        i,
        k,
    ) by {
        if i != j && j != k {
            precedes_transitive(keys, i, j, k);
        }
    }
    assert forall|i: int, j: int| #[trigger] leq(i, j) || #[trigger] leq(j, i) by {
        key_lt_total(keys[i], keys[j]);
    }
}

/// A stable order names every index once.
pub proof fn stable_order_is_permutation(keys: Seq<SortKey>, order: Seq<int>)
    requires
        is_stable_order(keys, order),
    ensures
        order.no_duplicates(),
        order.to_multiset() == Seq::new(keys.len(), |i: int| i).to_multiset(),
        forall|k: int| 0 <= k < keys.len() ==> order.contains(k),
{
    let identity = Seq::new(keys.len(), |i: int| i);
    assert forall|i: int, j: int| 0 <= i < order.len() && 0 <= j < order.len() && i
        != j implies order[i] != order[j] by {
        if i < j {
            precedes_irreflexive(keys, order[i]);
        } else {
            precedes_irreflexive(keys, order[j]);
        }
    }
    order.unique_seq_to_set();
    vstd::set_lib::lemma_int_range(0, keys.len() as int);
    vstd::seq_lib::seq_to_set_is_finite(order);
    let range = vstd::set_lib::set_int_range(0, keys.len() as int);
    assert(order.to_set().subset_of(range));
    vstd::set_lib::lemma_subset_equality(order.to_set(), range);
    assert forall|k: int| 0 <= k < keys.len() implies order.contains(k) by {
        assert(range.contains(k));
        assert(order.to_set().contains(k));
    }
    order.lemma_multiset_has_no_duplicates();
    identity.lemma_multiset_has_no_duplicates();
    broadcast use vstd::seq_lib::group_to_multiset_ensures;
    assert forall|k: int| order.to_multiset().count(k) == identity.to_multiset().count(k) by {
        if 0 <= k < keys.len() {
            assert(identity[k] == k);
            assert(identity.contains(k));
            assert(order.contains(k));
            assert(order.to_multiset().contains(k));
            assert(identity.to_multiset().contains(k));
        } else {
            assert(!identity.contains(k));
            assert(!order.contains(k));
        }
    }
    assert(order.to_multiset() =~= identity.to_multiset());
}

/// There is one stable order of given keys.
pub proof fn stable_order_unique(keys: Seq<SortKey>, order: Seq<int>)
    requires
        is_stable_order(keys, order),
    ensures
        order == stable_order(keys),
{
    let leq = index_order(keys);
    let identity = Seq::new(keys.len(), |i: int| i);
    index_order_total(keys);
    identity.lemma_sort_by_ensures(leq);
    stable_order_is_permutation(keys, order);
    vstd::seq_lib::lemma_sorted_unique(order, stable_order(keys), leq);
}

/// The stable order is sorted and keeps equal keys in their given order.
pub proof fn stable_order_sorts(keys: Seq<SortKey>)
    ensures
        is_stable_order(keys, stable_order(keys)),
{
    let leq = index_order(keys);
    let identity = Seq::new(keys.len(), |i: int| i);
    index_order_total(keys);
    identity.lemma_sort_by_ensures(leq);
    let order = stable_order(keys);
    broadcast use vstd::seq_lib::group_to_multiset_ensures;
    assert(order.len() == order.to_multiset().len());
    assert(identity.len() == identity.to_multiset().len());
    assert forall|i: int| 0 <= i < order.len() implies 0 <= #[trigger] order[i] < keys.len() by {
        assert(order.contains(order[i]));
        assert(identity.contains(order[i]));
    }
    assert(identity.no_duplicates());
    identity.lemma_multiset_has_no_duplicates();
    order.lemma_multiset_has_no_duplicates_conv();
    assert forall|i: int, j: int| 0 <= i < j < order.len() implies precedes(
        keys,
        #[trigger] order[i],
        #[trigger] order[j],
    ) by {
        assert(leq(order[i], order[j]));
    }
}

/// Keys that are in order already stay where they are.
pub proof fn stable_order_of_sorted(keys: Seq<SortKey>)
    requires
        forall|i: int, j: int| 0 <= i < j < keys.len() ==> !key_lt(#[trigger] keys[j], #[trigger] keys[i]),
    ensures
        stable_order(keys) == Seq::new(keys.len(), |i: int| i),
{
    let identity = Seq::new(keys.len(), |i: int| i);
    assert forall|i: int, j: int| 0 <= i < j < identity.len() implies precedes(
        keys,
        #[trigger] identity[i],
        #[trigger] identity[j],
    ) by {
        key_lt_total(keys[i], keys[j]);
    }
    stable_order_unique(keys, identity);
}

/// Whether key `a` comes before key `b`.
fn key_before(a: &Vec<String>, b: &Vec<String>) -> (r: bool)
    ensures
        r == key_lt(a.deep_view(), b.deep_view()),
{
    let ghost x = a.deep_view();
    let ghost y = b.deep_view();
    let mut i: usize = 0;
    assert(x.skip(0) =~= x);
    assert(y.skip(0) =~= y);
    while i < a.len() && i < b.len()
        invariant
            x == a.deep_view(),
            y == b.deep_view(),
            i <= a@.len(),
            i <= b@.len(),
            key_lt(x, y) == key_lt(x.skip(i as int), y.skip(i as int)),
        decreases a@.len() - i,
    {
        assert(x.skip(i as int)[0] == a@[i as int]@);
        assert(y.skip(i as int)[0] == b@[i as int]@);
        if !text::same_text(a[i].as_str(), b[i].as_str()) {
            return text::text_before(a[i].as_str(), b[i].as_str());
        }
        assert(x.skip(i as int).drop_first() =~= x.skip(i + 1));
        assert(y.skip(i as int).drop_first() =~= y.skip(i + 1));
        i = i + 1;
    }
    i < b.len()
}

/// The indices of a vector as mathematical integers.
pub open spec fn as_ints(v: Seq<usize>) -> Seq<int> {
    Seq::new(v.len(), |i: int| v[i] as int)
}

/// The indices of `keys`, sorted by key; equal keys stay in their given order.
pub fn sort_order(keys: &Vec<Vec<String>>) -> (order: Vec<usize>)
    ensures
        as_ints(order@) == stable_order(keys.deep_view()),
        is_stable_order(keys.deep_view(), as_ints(order@)),
        order@.len() == keys@.len(),
        forall|i: int| 0 <= i < order@.len() ==> #[trigger] order@[i] < keys@.len(),
{
    let ghost all = keys.deep_view();
    let mut order: Vec<usize> = Vec::new();
    let mut n: usize = 0;
    while n < keys.len()
        invariant
            all == keys.deep_view(),
            n <= keys@.len(),
            is_stable_order(all.take(n as int), as_ints(order@)),
        decreases keys@.len() - n,
    {
        let ghost before = order@;
        assert forall|i: int| 0 <= i < order@.len() implies #[trigger] order@[i] < n by {
            assert(as_ints(order@)[i] < n);
        }
        let mut p: usize = order.len();
        while p > 0 && key_before(&keys[n], &keys[order[p - 1]])
            invariant
                all == keys.deep_view(),
                n < keys@.len(),
                order@ == before,
                p <= order@.len(),
                is_stable_order(all.take(n as int), as_ints(order@)),
                forall|i: int| 0 <= i < order@.len() ==> #[trigger] order@[i] < n,
                forall|i: int| p <= i < order@.len() ==> key_lt(all[n as int], all[#[trigger] order@[i] as int]),
            decreases p,
        {
            p = p - 1;
        }
        order.insert(p, n);
        proof {
            insertion_keeps_order(all, n as int, as_ints(before), p as int);
            assert(as_ints(order@) =~= as_ints(before).insert(p as int, n as int));
        }
        n = n + 1;
    }
    assert(all.take(n as int) =~= all);
    proof {
        stable_order_unique(all, as_ints(order@));
    }
    assert forall|i: int| 0 <= i < order@.len() implies #[trigger] order@[i] < keys@.len() by {
        assert(as_ints(order@)[i] < keys@.len());
    }
    order
}

proof fn insertion_keeps_order(keys: Seq<SortKey>, n: int, order: Seq<int>, p: int)
    requires
        0 <= n < keys.len(),
        is_stable_order(keys.take(n), order),
        0 <= p <= order.len(),
        p > 0 ==> !key_lt(keys[n], keys[order[p - 1]]),
        forall|i: int| p <= i < order.len() ==> key_lt(keys[n], keys[#[trigger] order[i]]),
    ensures
        is_stable_order(keys.take(n + 1), order.insert(p, n)),
{
    let longer = keys.take(n + 1);
    let next = order.insert(p, n);
    assert forall|i: int| 0 <= i < p implies !key_lt(keys[n], keys[#[trigger] order[i]]) by {
        if key_lt(keys[n], keys[order[i]]) && i < p - 1 {
            assert(precedes(keys.take(n), order[i], order[p - 1]));
            if keys[order[i]] != keys[order[p - 1]] {
                key_lt_transitive(keys[n], keys[order[i]], keys[order[p - 1]]);
            }
        }
    }
    assert forall|i: int, j: int| 0 <= i < j < next.len() implies precedes(
        longer,
        #[trigger] next[i],
        #[trigger] next[j],
    ) by {
        if i == p {
            assert(next[j] == order[j - 1]);
        } else if j == p {
            assert(next[i] == order[i]);
            key_lt_total(keys[n], keys[order[i]]);
        } else {
            let a = if i < p { i } else { i - 1 };
            let b = if j < p { j } else { j - 1 };
            assert(next[i] == order[a] && next[j] == order[b]);
            assert(precedes(keys.take(n), order[a], order[b]));
        }
    }
}

/// A key comes before another if and only if they are the same up to a text in which it
/// comes first, or it ends while the other goes on.
pub proof fn keys_are_ordered_by_first_difference(a: SortKey, b: SortKey)
    ensures
        key_lt(a, b) <==> exists|k: int|
            {
                &&& 0 <= k <= a.len() && k < b.len()
                &&& #[trigger] a.take(k) == b.take(k)
                &&& k == a.len() || a[k] != b[k] && text::text_lt(a[k], b[k])
            },
    decreases b.len(),
{
    if b.len() > 0 {
        assert(a.take(0) =~= b.take(0));
        if a.len() > 0 {
            let x = a.drop_first();
            let y = b.drop_first();
            if a[0] == b[0] {
                keys_are_ordered_by_first_difference(x, y);
                if key_lt(a, b) {
                    let k = choose|k: int|
                        {
                            &&& 0 <= k <= x.len() && k < y.len()
                            &&& #[trigger] x.take(k) == y.take(k)
                            &&& k == x.len() || x[k] != y[k] && text::text_lt(x[k], y[k])
                        };
                    assert forall|i: int| 0 <= i < k + 1 implies a[i] == b[i] by {
                        if i > 0 {
                            assert(x.take(k)[i - 1] == y.take(k)[i - 1]);
                        }
                    }
                    assert(a.take(k + 1) =~= b.take(k + 1));
                }
            }
            if exists|k: int|
                {
                    &&& 0 <= k <= a.len() && k < b.len()
                    &&& #[trigger] a.take(k) == b.take(k)
                    &&& k == a.len() || a[k] != b[k] && text::text_lt(a[k], b[k])
                } {
                let k = choose|k: int|
                    {
                        &&& 0 <= k <= a.len() && k < b.len()
                        &&& #[trigger] a.take(k) == b.take(k)
                        &&& k == a.len() || a[k] != b[k] && text::text_lt(a[k], b[k])
                    };
                if k > 0 {
                    assert(a.take(k)[0] == b.take(k)[0]);
                    assert forall|i: int| 0 <= i < k - 1 implies x[i] == y[i] by {
                        assert(a.take(k)[i + 1] == b.take(k)[i + 1]);
                    }
                    assert(x.take(k - 1) =~= y.take(k - 1));
                }
            }
        }
    }
}

/// Sorting names every place once, puts no key before one that comes first, and leaves
/// equal keys in the order in which they were given.
pub proof fn sorting_sorts(keys: &Vec<Vec<String>>, order: Vec<usize>)
    requires
        call_ensures(sort_order, (keys,), order),
    ensures
        order@.len() == keys@.len(),
        forall|i: int, j: int|
            0 <= i < j < order@.len() ==> #[trigger] order@[i] != #[trigger] order@[j],
        forall|i: int| 0 <= i < order@.len() ==> #[trigger] order@[i] < keys@.len(),
        forall|i: int, j: int|
            #![trigger order@[i], order@[j]]
            0 <= i < j < order@.len() ==> !key_lt(
                keys@[order@[j] as int].deep_view(),
                keys@[order@[i] as int].deep_view(),
            ),
        forall|i: int, j: int|
            #![trigger order@[i], order@[j]]
            0 <= i < j < order@.len() && keys@[order@[i] as int].deep_view()
                == keys@[order@[j] as int].deep_view() ==> order@[i] < order@[j],
{
    let all = keys.deep_view();
    let ints = as_ints(order@);
    assert forall|i: int, j: int|
        #![trigger order@[i], order@[j]]
        0 <= i < j < order@.len() implies order@[i] != order@[j] && !key_lt(
        keys@[order@[j] as int].deep_view(),
        keys@[order@[i] as int].deep_view(),
    ) && (keys@[order@[i] as int].deep_view() == keys@[order@[j] as int].deep_view() ==> order@[i]
        < order@[j]) by {
        let x = ints[i];
        let y = ints[j];
        assert(x == order@[i] && y == order@[j]);
        assert(precedes(all, x, y));
        assert(all[x] == keys@[x].deep_view() && all[y] == keys@[y].deep_view());
        key_lt_irreflexive(all[x]);
        if key_lt(all[y], all[x]) && key_lt(all[x], all[y]) {
            key_lt_transitive(all[x], all[y], all[x]);
        }
        if x == y {
            precedes_irreflexive(all, x);
        }
    }
}

} // verus!
