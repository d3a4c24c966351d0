//! Searching, filtering and rearranging sequences.

use vstd::prelude::*;
use crate::order;

verus! {

/// The place of the first item that meets `p`.
pub open spec fn first_index<T>(s: Seq<T>, p: spec_fn(T) -> bool) -> Option<int>
    decreases s.len(),
{
    if s.len() == 0 {
        None
    } else if p(s[0]) {
        Some(0)
    } else {
        match first_index(s.drop_first(), p) {
            Some(i) => Some(i + 1),
            None => None,
        }
    }
}

/// The first item that meets `p`.
pub open spec fn first_where<T>(s: Seq<T>, p: spec_fn(T) -> bool) -> Option<T> {
    match first_index(s, p) {
        Some(i) => Some(s[i]),
        None => None,
    }
}

/// The last item that meets `p`.
pub open spec fn last_where<T>(s: Seq<T>, p: spec_fn(T) -> bool) -> Option<T>
    decreases s.len(),
{
    if s.len() == 0 {
        None
    } else if p(s.last()) {
        Some(s.last())
    } else {
        last_where(s.drop_last(), p)
    }
}

/// `first_index` finds an item that meets `p`, and none before it does; it finds
/// nothing only where nothing meets `p`.
pub proof fn first_index_found<T>(s: Seq<T>, p: spec_fn(T) -> bool)
    ensures
        match first_index(s, p) {
            Some(i) => 0 <= i < s.len() && p(s[i]) && forall|j: int|
                0 <= j < i ==> !p(#[trigger] s[j]),
            None => forall|j: int| 0 <= j < s.len() ==> !p(#[trigger] s[j]),
        },
    decreases s.len(),
{
    if s.len() > 0 && !p(s[0]) {
        let rest = s.drop_first();
        first_index_found(rest, p);
        assert forall|j: int|
            0 <= j < s.len() && (first_index(s, p) matches Some(i) ==> j < i) implies !p(
            #[trigger] s[j],
        ) by {
            if j > 0 {
                assert(rest[j - 1] == s[j]);
            }
        }
    }
}

/// Where an item meets `p` and none before it does, `first_index` gives its place.
pub proof fn first_index_at<T>(s: Seq<T>, p: spec_fn(T) -> bool, i: int)
    requires
        0 <= i < s.len(),
        p(s[i]),
        forall|j: int| 0 <= j < i ==> !p(#[trigger] s[j]),
    ensures
        first_index(s, p) == Some(i),
{
    first_index_found(s, p);
    match first_index(s, p) {
        Some(k) => {
            if k < i {
                assert(!p(s[k]));
            } else if k > i {
                assert(!p(s[i]));
            }
        },
        None => {
            assert(!p(s[i]));
        },
    }
}

/// Where nothing meets `p`, `first_index` gives nothing.
pub proof fn first_index_none<T>(s: Seq<T>, p: spec_fn(T) -> bool)
    requires
        forall|j: int| 0 <= j < s.len() ==> !p(#[trigger] s[j]),
    ensures
        first_index(s, p) is None,
{
    first_index_found(s, p);
}

/// One more item is filtered like the others.
pub proof fn filter_step<T>(s: Seq<T>, p: spec_fn(T) -> bool, n: int)
    requires
        0 <= n < s.len(),
    ensures
        s.take(n + 1).filter(p) == if p(s[n]) {
            s.take(n).filter(p).push(s[n])
        } else {
            s.take(n).filter(p)
        },
{
    reveal(Seq::filter);
    assert(s.take(n + 1).drop_last() =~= s.take(n));
}

/// A filter that every item passes changes nothing.
pub proof fn filter_all<T>(s: Seq<T>, p: spec_fn(T) -> bool)
    requires
        forall|i: int| 0 <= i < s.len() ==> p(#[trigger] s[i]),
    ensures
        s.filter(p) == s,
    decreases s.len(),
{
    reveal(Seq::filter);
    if s.len() > 0 {
        filter_all(s.drop_last(), p);
        assert(s =~= s.drop_last().push(s.last()));
    }
}

/// What passes a filter met its condition and was there before, and everything
/// that meets the condition passes.
pub proof fn filter_members<T>(s: Seq<T>, p: spec_fn(T) -> bool)
    ensures
        forall|i: int| 0 <= i < s.filter(p).len() ==> p(#[trigger] s.filter(p)[i]),
        forall|x: T| #[trigger] s.filter(p).contains(x) <==> s.contains(x) && p(x),
    decreases s.len(),
{
    reveal(Seq::filter);
    if s.len() > 0 {
        let rest = s.drop_last();
        filter_members(rest, p);
        let f = s.filter(p);
        let g = rest.filter(p);
        assert forall|x: T| #[trigger] f.contains(x) implies s.contains(x) && p(x) by {
            let i = f.index_of(x);
            if i < g.len() {
                assert(g[i] == x);
                assert(g.contains(x));
                let k = rest.index_of(x);
                assert(s[k] == x);
            } else {
                assert(s[s.len() - 1] == x);
            }
        }
        assert forall|x: T| s.contains(x) && p(x) implies #[trigger] f.contains(x) by {
            let k = s.index_of(x);
            if k < rest.len() {
                assert(rest[k] == x);
                assert(g.contains(x));
                let i = g.index_of(x);
                assert(f[i] == x);
            } else {
                assert(f[f.len() - 1] == x);
            }
        }
        assert forall|i: int| 0 <= i < f.len() implies p(#[trigger] f[i]) by {
            if i < g.len() {
                assert(f[i] == g[i]);
            }
        }
    }
}

/// Filtering keeps the order: what stands at two places of the result stood at two
/// places before, in the same order.
pub proof fn filter_keeps_order<T>(s: Seq<T>, p: spec_fn(T) -> bool, i: int, j: int) -> (places: (
    int,
    int,
))
    requires
        0 <= i < j < s.filter(p).len(),
    ensures
        0 <= places.0 < places.1 < s.len(),
        s[places.0] == s.filter(p)[i],
        s[places.1] == s.filter(p)[j],
    decreases s.len(),
{
    reveal(Seq::filter);
    let rest = s.drop_last();
    let g = rest.filter(p);
    if j < g.len() {
        filter_keeps_order(rest, p, i, j)
    } else {
        filter_members(rest, p);
        assert(g.contains(g[i]));
        assert(rest.contains(g[i]));
        let k = rest.index_of(g[i]);
        (k, s.len() - 1)
    }
}

/// The last item that meets `q` is still the last one after a filter that keeps
/// everything that meets `q`.
pub proof fn last_where_filtered<T>(s: Seq<T>, p: spec_fn(T) -> bool, q: spec_fn(T) -> bool)
    requires
        forall|i: int| 0 <= i < s.len() && q(#[trigger] s[i]) ==> p(s[i]),
    ensures
        last_where(s.filter(p), q) == last_where(s, q),
    decreases s.len(),
{
    reveal(Seq::filter);
    if s.len() > 0 {
        let rest = s.drop_last();
        assert(s[s.len() - 1] == s.last());
        assert forall|i: int| 0 <= i < rest.len() && q(#[trigger] rest[i]) implies p(rest[i]) by {
            assert(s[i] == rest[i]);
        }
        last_where_filtered(rest, p, q);
        let f = s.filter(p);
        if p(s.last()) {
            assert(f.last() == s.last());
            assert(f.drop_last() =~= rest.filter(p));
        }
    }
}

/// Sorting keeps exactly the same items.
pub proof fn arranged_members<T>(s: Seq<T>, keys: Seq<order::SortKey>)
    requires
        keys.len() == s.len(),
    ensures
        order::arranged(s, order::stable_order(keys)).len() == s.len(),
        forall|x: T|
            #[trigger] order::arranged(s, order::stable_order(keys)).contains(x) <==> s.contains(x),
{
    order::stable_order_sorts(keys);
    let order = order::stable_order(keys);
    order::stable_order_is_permutation(keys, order);
    let t = order::arranged(s, order);
    assert forall|x: T| #[trigger] t.contains(x) implies s.contains(x) by {
        let i = t.index_of(x);
        assert(t[i] == s[order[i]]);
    }
    assert forall|x: T| s.contains(x) implies #[trigger] t.contains(x) by {
        let k = s.index_of(x);
        assert(order.contains(k));
        let i = order.index_of(k);
        assert(t[i] == x);
    }
}

/// Two filters may change places.
pub proof fn filters_commute<T>(s: Seq<T>, p: spec_fn(T) -> bool, q: spec_fn(T) -> bool)
    ensures
        s.filter(p).filter(q) == s.filter(q).filter(p),
    decreases s.len(),
{
    reveal(Seq::filter);
    if s.len() > 0 {
        let rest = s.drop_last();
        let x = s.last();
        filters_commute(rest, p, q);
        assert(rest.filter(p).push(x).drop_last() =~= rest.filter(p));
        assert(rest.filter(q).push(x).drop_last() =~= rest.filter(q));
    }
}

/// An item that does not pass a filter may be replaced by another one that does not.
pub proof fn filter_update<T>(s: Seq<T>, q: spec_fn(T) -> bool, i: int, x: T)
    requires
        0 <= i < s.len(),
        !q(s[i]),
        !q(x),
    ensures
        s.update(i, x).filter(q) == s.filter(q),
    decreases s.len(),
{
    reveal(Seq::filter);
    let rest = s.drop_last();
    if i < rest.len() {
        filter_update(rest, q, i, x);
        assert(s.update(i, x).drop_last() =~= rest.update(i, x));
    } else {
        assert(s.update(i, x).drop_last() =~= rest);
    }
}

/// An item at the end that does not pass a filter makes no difference.
pub proof fn filter_push<T>(s: Seq<T>, q: spec_fn(T) -> bool, x: T)
    requires
        !q(x),
    ensures
        s.push(x).filter(q) == s.filter(q),
{
    reveal(Seq::filter);
    assert(s.push(x).drop_last() =~= s);
}

/// A filter that all items but one pass takes that one out.
pub proof fn filter_all_but<T>(s: Seq<T>, q: spec_fn(T) -> bool, i: int)
    requires
        0 <= i < s.len(),
        !q(s[i]),
        forall|j: int| 0 <= j < s.len() && j != i ==> q(#[trigger] s[j]),
    ensures
        s.filter(q) == s.remove(i),
    decreases s.len(),
{
    reveal(Seq::filter);
    let rest = s.drop_last();
    if i < rest.len() {
        filter_all_but(rest, q, i);
        assert(q(s[s.len() - 1]));
        assert(s.remove(i) =~= rest.remove(i).push(s.last()));
    } else {
        filter_all(rest, q);
        assert(s.remove(i) =~= rest);
    }
}

/// Filtering rearranged items is rearranging by the filtered order.
proof fn filter_arranged<T>(s: Seq<T>, order: Seq<int>, q: spec_fn(T) -> bool)
    ensures
        order::arranged(s, order).filter(q) == order::arranged(s, order.filter(|k: int| q(s[k]))),
    decreases order.len(),
{
    reveal(Seq::filter);
    let f = |k: int| q(s[k]);
    let t = order::arranged(s, order);
    if order.len() > 0 {
        filter_arranged(s, order.drop_last(), q);
        assert(t.drop_last() =~= order::arranged(s, order.drop_last()));
        assert(t.last() == s[order.last()]);
        if f(order.last()) {
            assert(order::arranged(s, order.drop_last().filter(f).push(order.last()))
                =~= order::arranged(s, order.drop_last().filter(f)).push(s[order.last()]));
        }
    } else {
        assert(t.filter(q) =~= order::arranged(s, order.filter(f)));
    }
}

/// Whether numbers ascend.
spec fn ascends(a: Seq<int>) -> bool {
    forall|i: int, j: int| 0 <= i < j < a.len() ==> #[trigger] a[i] < #[trigger] a[j]
}

/// Numbers that ascend are given by which ones they are.
proof fn ascending_unique(a: Seq<int>, b: Seq<int>)
    requires
        ascends(a),
        ascends(b),
        forall|x: int| a.contains(x) <==> b.contains(x),
    ensures
        a == b,
    decreases a.len(),
{
    if a.len() == 0 {
        if b.len() > 0 {
            assert(b.contains(b[0]));
        }
        assert(a =~= b);
    } else {
        assert(a.contains(a.last()));
        assert(b.contains(a.last()));
        assert(b.contains(b.last()));
        assert(a.contains(b.last()));
        assert(a.last() == b.last());
        let c = a.drop_last();
        let d = b.drop_last();
        assert forall|x: int| c.contains(x) <==> d.contains(x) by {
            if c.contains(x) {
                let i = c.index_of(x);
                assert(a[i] == x && x < a.last());
                assert(a.contains(x));
                let j = b.index_of(x);
                assert(d[j] == x);
            }
            if d.contains(x) {
                let i = d.index_of(x);
                assert(b[i] == x && x < b.last());
                assert(b.contains(x));
                let j = a.index_of(x);
                assert(c[j] == x);
            }
        }
        ascending_unique(c, d);
        assert(a =~= c.push(a.last()));
        assert(b =~= d.push(b.last()));
    }
}

/// Sorting leaves those items where they are among themselves that are in order.
pub proof fn sorting_keeps_order<T>(s: Seq<T>, keys: Seq<order::SortKey>, q: spec_fn(T) -> bool)
    requires
        keys.len() == s.len(),
        forall|i: int, j: int|
            0 <= i < j < s.len() && q(s[i]) && q(s[j]) ==> !order::key_lt(
                #[trigger] keys[j],
                #[trigger] keys[i],
            ),
    ensures
        order::arranged(s, order::stable_order(keys)).filter(q) == s.filter(q),
{
    let sorted = order::stable_order(keys);
    let given = Seq::new(s.len(), |i: int| i);
    let f = |k: int| q(s[k]);
    order::stable_order_sorts(keys);
    order::stable_order_is_permutation(keys, sorted);
    filter_arranged(s, sorted, q);
    filter_arranged(s, given, q);
    assert(order::arranged(s, given) =~= s);
    let a = sorted.filter(f);
    let b = given.filter(f);
    filter_members(sorted, f);
    filter_members(given, f);
    assert forall|i: int, j: int| 0 <= i < j < a.len() implies #[trigger] a[i] < #[trigger] a[j] by {
        let places = filter_keeps_order(sorted, f, i, j);
        assert(f(a[i]) && f(a[j]));
        assert(order::precedes(keys, sorted[places.0], sorted[places.1]));
        assert(sorted[places.0] != sorted[places.1]);
        if a[j] < a[i] {
            assert(!order::key_lt(keys[a[i]], keys[a[j]]));
        }
    }
    assert forall|i: int, j: int| 0 <= i < j < b.len() implies #[trigger] b[i] < #[trigger] b[j] by {
        let places = filter_keeps_order(given, f, i, j);
    }
    assert forall|x: int| a.contains(x) <==> b.contains(x) by {
        if sorted.contains(x) {
            let i = sorted.index_of(x);
            assert(given[x] == x);
        }
        if given.contains(x) {
            assert(sorted.contains(x));
        }
    }
    ascending_unique(a, b);
}

} // verus!
