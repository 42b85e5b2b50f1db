//! Stable sorting.
use vstd::prelude::*;

verus! {

/// A type whose values stand in an order. Different values may be equal in it.
pub trait InOrder: Sized {
    /// Whether `self` does not come after `other`.
    spec fn comes_by(self, other: Self) -> bool;

    proof fn order_is_total(a: Self, b: Self)
        ensures
            a.comes_by(b) || b.comes_by(a),
    ;

    proof fn order_is_transitive(a: Self, b: Self, c: Self)
        requires
            a.comes_by(b),
            b.comes_by(c),
        ensures
            a.comes_by(c),
    ;

    /// Whether `self` does not come after `other`.
    fn not_after(&self, other: &Self) -> (answer: bool)
        ensures
            answer == self.comes_by(*other),
    ;
}

/// The property of being equal to `x` in the order.
pub open spec fn tied<T: InOrder>(x: T) -> spec_fn(T) -> bool {
    |y: T| x.comes_by(y) && y.comes_by(x)
}

/// Whether every item comes before those that follow it, or is equal to them.
pub open spec fn in_order<T: InOrder>(items: Seq<T>) -> bool {
    forall|i: int, j: int| 0 <= i <= j < items.len() ==> (#[trigger] items[i]).comes_by(
        #[trigger] items[j],
    )
}

/// Whether `sorted` holds the items in order, equal ones as they stood.
pub open spec fn stably_sorted<T: InOrder>(items: Seq<T>, sorted: Seq<T>) -> bool {
    &&& in_order(sorted)
    &&& sorted.to_multiset() == items.to_multiset()
    &&& forall|x: T| sorted.filter(#[trigger] tied(x)) == items.filter(tied(x))
}

/// An item put in front of the first one that it does not come after.
proof fn lemma_insert<T: InOrder>(sorted: Seq<T>, x: T, at: int)
    requires
        in_order(sorted),
        0 <= at <= sorted.len(),
        forall|k: int| 0 <= k < at ==> !x.comes_by(#[trigger] sorted[k]),
        at < sorted.len() ==> x.comes_by(sorted[at]),
    ensures
        in_order(sorted.insert(at, x)),
        sorted.insert(at, x).to_multiset() == sorted.to_multiset().insert(x),
        forall|y: T|
            sorted.insert(at, x).filter(#[trigger] tied(y)) == (seq![x] + sorted).filter(tied(y)),
{
    let out = sorted.insert(at, x);
    assert forall|i: int, j: int| 0 <= i <= j < out.len() implies (#[trigger] out[i]).comes_by(
        #[trigger] out[j],
    ) by {
        let before = |k: int| if k < at { k } else { k - 1 };
        if i == at && j == at {
            T::order_is_total(x, x);
        } else if i == at {
            T::order_is_transitive(x, sorted[at], sorted[j - 1]);
        } else if j == at {
            T::order_is_total(sorted[i], x);
        } else {
            assert(out[i] == sorted[before(i)]);
            assert(out[j] == sorted[before(j)]);
        }
    }
    vstd::seq_lib::to_multiset_insert(sorted, at, x);
    let head = sorted.take(at);
    let tail = sorted.skip(at);
    assert(sorted =~= head + tail);
    assert(out =~= head + (seq![x] + tail));
    assert forall|y: T| out.filter(#[trigger] tied(y)) == (seq![x] + sorted).filter(tied(y)) by {
        let p = tied(y);
        Seq::filter_distributes_over_add(head, seq![x] + tail, p);
        Seq::filter_distributes_over_add(seq![x], tail, p);
        Seq::filter_distributes_over_add(seq![x], head + tail, p);
        Seq::filter_distributes_over_add(head, tail, p);
        if p(x) {
            assert forall|k: int| 0 <= k < head.len() implies !p(#[trigger] head[k]) by {
                assert(head[k] == sorted[k]);
                if y.comes_by(head[k]) {
                    T::order_is_transitive(x, y, head[k]);
                }
            }
            lemma_filter_none(head, p);
            assert(seq![] + (seq![x].filter(p) + tail.filter(p)) =~= seq![x].filter(p) + (seq![]
                + tail.filter(p)));
        } else {
            lemma_filter_none(seq![x], p);
            assert(seq![] + tail.filter(p) =~= tail.filter(p));
            assert(seq![] + (head.filter(p) + tail.filter(p)) =~= head.filter(p) + (seq![]
                + tail.filter(p)));
        }
    }
}

/// A filter that nothing passes leaves nothing.
proof fn lemma_filter_none<T>(items: Seq<T>, p: spec_fn(T) -> bool)
    requires
        forall|k: int| 0 <= k < items.len() ==> !p(#[trigger] items[k]),
    ensures
        items.filter(p) == Seq::<T>::empty(),
    decreases items.len(),
{
    reveal(Seq::filter);
    if items.len() > 0 {
        assert forall|k: int| 0 <= k < items.drop_last().len() implies !p(
            #[trigger] items.drop_last()[k],
        ) by {
            assert(items.drop_last()[k] == items[k]);
        }
        lemma_filter_none(items.drop_last(), p);
        assert(!p(items[items.len() - 1]));
    }
}

/// Sorts the items, equal ones in the order in which they stood.
pub fn sort<T: InOrder>(items: Vec<T>) -> (sorted: Vec<T>)
    ensures
        stably_sorted(items@, sorted@),
{
    let ghost all = items@;
    let mut left = items;
    let mut sorted: Vec<T> = Vec::new();
    assert(all.skip(all.len() as int) =~= Seq::<T>::empty());
    assert(left@ =~= all.take(all.len() as int));
    loop
        invariant
            all == items@,
            left@ == all.take(left@.len() as int),
            left@.len() <= all.len(),
            stably_sorted(all.skip(left@.len() as int), sorted@),
        decreases left@.len(),
    {
        let ghost n = left@.len() as int;
        match left.pop() {
            None => {
                assert(all.skip(0) =~= all);
                return sorted;
            },
            Some(item) => {
                let ghost rest = all.skip(n);
                let ghost before = sorted@;
                let mut at: usize = 0;
                while at < sorted.len() && !item.not_after(&sorted[at])
                    invariant
                        at <= sorted.len(),
                        forall|k: int| 0 <= k < at ==> !item.comes_by(#[trigger] sorted@[k]),
                    ensures
                        at <= sorted.len(),
                        forall|k: int| 0 <= k < at ==> !item.comes_by(#[trigger] sorted@[k]),
                        at < sorted.len() ==> item.comes_by(sorted@[at as int]),
                    decreases sorted.len() - at,
                {
                    at += 1;
                }
                proof {
                    lemma_insert(before, item, at as int);
                    assert(all.skip(n - 1) =~= seq![item] + rest);
                    assert forall|y: T| (seq![item] + before).filter(#[trigger] tied(y)) == (
                    seq![item] + rest).filter(tied(y)) by {
                        Seq::filter_distributes_over_add(seq![item], before, tied(y));
                        Seq::filter_distributes_over_add(seq![item], rest, tied(y));
                    }
                    assert(seq![item] + rest =~= rest.insert(0, item));
                    vstd::seq_lib::to_multiset_insert(rest, 0, item);
                }
                sorted.insert(at, item);
                assert(left@ =~= all.take(n - 1));
            },
        }
    }
}

/// The first item comes first in its filter; the others follow as they would
/// without it.
proof fn lemma_filter_first<T>(items: Seq<T>, p: spec_fn(T) -> bool)
    requires
        items.len() > 0,
    ensures
        items.filter(p) == if p(items[0]) {
            seq![items[0]] + items.drop_first().filter(p)
        } else {
            items.drop_first().filter(p)
        },
{
    let first = seq![items[0]];
    assert(items =~= first + items.drop_first());
    Seq::filter_distributes_over_add(first, items.drop_first(), p);
    reveal(Seq::filter);
    assert(first.drop_last() =~= seq![]);
    if p(items[0]) {
        assert(first.filter(p) =~= first);
    } else {
        lemma_filter_none(first, p);
        assert(seq![] + items.drop_first().filter(p) =~= items.drop_first().filter(p));
    }
}

/// What is in a filter is in what was filtered.
proof fn lemma_filter_within<T>(items: Seq<T>, p: spec_fn(T) -> bool, k: int)
    requires
        0 <= k < items.filter(p).len(),
    ensures
        p(items.filter(p)[k]),
        exists|i: int| 0 <= i < items.len() && #[trigger] items[i] == items.filter(p)[k],
    decreases items.len(),
{
    reveal(Seq::filter);
    if items.len() > 0 {
        let before = items.drop_last();
        if k < before.filter(p).len() {
            lemma_filter_within(before, p, k);
            let i = choose|i: int|
                0 <= i < before.len() && #[trigger] before[i] == before.filter(p)[k];
            assert(items[i] == items.filter(p)[k]);
        } else {
            assert(items[items.len() - 1] == items.filter(p)[k]);
        }
    }
}

/// There is only one way to sort stably: whatever sorts the same items so comes
/// to the same result.
pub proof fn stable_order_is_unique<T: InOrder>(items: Seq<T>, a: Seq<T>, b: Seq<T>)
    requires
        stably_sorted(items, a),
        stably_sorted(items, b),
    ensures
        a == b,
{
    lemma_same_filters(a, b);
}

proof fn lemma_same_filters<T: InOrder>(a: Seq<T>, b: Seq<T>)
    requires
        in_order(a),
        in_order(b),
        forall|x: T| a.filter(#[trigger] tied(x)) == b.filter(tied(x)),
    ensures
        a == b,
    decreases a.len(),
{
    if a.len() == 0 {
        if b.len() > 0 {
            let p = tied(b[0]);
            T::order_is_total(b[0], b[0]);
            lemma_filter_first(b, p);
            assert(a.filter(p) == b.filter(p));
            lemma_filter_none(a, p);
            assert(b.filter(p).len() > 0);
        }
        assert(a =~= b);
    } else {
        let p = tied(a[0]);
        T::order_is_total(a[0], a[0]);
        lemma_filter_first(a, p);
        assert(a.filter(p) == b.filter(p));
        assert(b.filter(p)[0] == a[0]);
        lemma_filter_within(b, p, 0);
        let j = choose|j: int| 0 <= j < b.len() && #[trigger] b[j] == a[0];
        // The first of `b` is in `a` as well, so both are tied.
        let q = tied(b[0]);
        T::order_is_total(b[0], b[0]);
        lemma_filter_first(b, q);
        assert(a.filter(q) == b.filter(q));
        lemma_filter_within(a, q, 0);
        let i = choose|i: int| 0 <= i < a.len() && #[trigger] a[i] == b[0];
        assert(a[0].comes_by(a[i]));
        assert(b[0].comes_by(b[j]));
        assert(p(b[0]));
        lemma_filter_first(b, p);
        assert(a[0] == b[0]);
        let rest_a = a.drop_first();
        let rest_b = b.drop_first();
        assert forall|i: int, j: int| 0 <= i <= j < rest_a.len() implies (
        #[trigger] rest_a[i]).comes_by(#[trigger] rest_a[j]) by {
            assert(a[i + 1].comes_by(a[j + 1]));
        }
        assert forall|i: int, j: int| 0 <= i <= j < rest_b.len() implies (
        #[trigger] rest_b[i]).comes_by(#[trigger] rest_b[j]) by {
            assert(b[i + 1].comes_by(b[j + 1]));
        }
        assert forall|x: T| rest_a.filter(#[trigger] tied(x)) == rest_b.filter(tied(x)) by {
            let r = tied(x);
            lemma_filter_first(a, r);
            lemma_filter_first(b, r);
            assert(a.filter(r) == b.filter(r));
            if r(a[0]) {
                assert((seq![a[0]] + rest_a.filter(r)).drop_first() =~= rest_a.filter(r));
                assert((seq![b[0]] + rest_b.filter(r)).drop_first() =~= rest_b.filter(r));
            }
        }
        lemma_same_filters(rest_a, rest_b);
        assert(a =~= seq![a[0]] + rest_a);
        assert(b =~= seq![b[0]] + rest_b);
    }
}

} // verus!
