//! Stable ranking by key.

use vstd::prelude::*;

verus! {

/// Lexicographic order on keys.
pub open spec fn key_less(a: (u128, u128), b: (u128, u128)) -> bool {
    a.0 < b.0 || (a.0 == b.0 && a.1 < b.1)
}

/// Whether item `a` comes before item `b`: by key, then by position.
pub open spec fn precedes(keys: Seq<(u128, u128)>, a: int, b: int) -> bool {
    key_less(keys[a], keys[b]) || (keys[a] == keys[b] && a < b)
}

/// Whether `order` lists the positions of `keys`, each before those it precedes.
pub open spec fn is_ranked(order: Seq<usize>, keys: Seq<(u128, u128)>) -> bool {
    &&& order.len() == keys.len()
    &&& forall|i: int| 0 <= i < order.len() ==> (#[trigger] order[i]) < keys.len()
    &&& forall|i: int, j: int|
        0 <= i < j < order.len() ==> precedes(keys, #[trigger] order[i] as int, #[trigger] order[j] as int)
}

/// The positions of `keys` in the order of a stable sort.
pub open spec fn ranking(keys: Seq<(u128, u128)>) -> Seq<usize> {
    choose|order: Seq<usize>| is_ranked(order, keys)
}

/// The items of `s` in the order `order`.
pub open spec fn arranged<T>(s: Seq<T>, order: Seq<usize>) -> Seq<T> {
    Seq::new(order.len(), |i: int| s[order[i] as int])
}

/// A ranked order leaves no position out.
proof fn lemma_ranked_covers(order: Seq<usize>, keys: Seq<(u128, u128)>, a: int)
    requires
        is_ranked(order, keys),
        0 <= a < keys.len(),
    ensures
        exists|i: int| 0 <= i < order.len() && #[trigger] order[i] == a,
{
    let ints = Seq::new(order.len(), |i: int| order[i] as int);
    let n = keys.len() as int;
    assert forall|i: int, j: int| 0 <= i < ints.len() && 0 <= j < ints.len() && i != j implies ints[i]
        != ints[j] by {
        if i < j {
            assert(precedes(keys, order[i] as int, order[j] as int));
        } else {
            assert(precedes(keys, order[j] as int, order[i] as int));
        }
    }
    assert(ints.no_duplicates());
    ints.unique_seq_to_set();
    vstd::set_lib::lemma_int_range(0, n);
    let all = vstd::set_lib::set_int_range(0, n);
    assert(ints.to_set().subset_of(all)) by {
        assert forall|x: int| ints.to_set().contains(x) implies all.contains(x) by {
            let i = choose|i: int| 0 <= i < ints.len() && ints[i] == x;
            assert(order[i] < keys.len());
        }
    }
    vstd::set_lib::lemma_subset_equality(ints.to_set(), all);
    assert(ints.to_set().contains(a));
    let i = choose|i: int| 0 <= i < ints.len() && ints[i] == a;
    assert(order[i] == a);
}

/// There is only one ranked order: it is the [`ranking`].
pub proof fn lemma_ranking_unique(order: Seq<usize>, keys: Seq<(u128, u128)>)
    requires
        is_ranked(order, keys),
    ensures
        order == ranking(keys),
        is_ranked(ranking(keys), keys),
{
    let other = ranking(keys);
    assert(is_ranked(other, keys));
    lemma_orders_agree(order, other, keys, order.len() as int);
    assert(order.take(order.len() as int) == order);
    assert(other.take(order.len() as int) == other);
}

/// Two ranked orders agree on every prefix.
proof fn lemma_orders_agree(x: Seq<usize>, y: Seq<usize>, keys: Seq<(u128, u128)>, n: int)
    requires
        is_ranked(x, keys),
        is_ranked(y, keys),
        0 <= n <= keys.len(),
    ensures
        x.take(n) == y.take(n),
    decreases n,
{
    if n > 0 {
        let i = n - 1;
        lemma_orders_agree(x, y, keys, i);
        lemma_ranked_covers(x, keys, y[i] as int);
        lemma_ranked_covers(y, keys, x[i] as int);
        let j = choose|j: int| 0 <= j < x.len() && #[trigger] x[j] == y[i] as int;
        let k = choose|k: int| 0 <= k < y.len() && #[trigger] y[k] == x[i] as int;
        if j < i {
            assert(x.take(i)[j] == y.take(i)[j]);
            assert(precedes(keys, y[j] as int, y[i] as int));
        }
        if k < i {
            assert(x.take(i)[k] == y.take(i)[k]);
            assert(precedes(keys, x[k] as int, x[i] as int));
        }
        if j > i {
            assert(precedes(keys, x[i] as int, x[j] as int));
            if k > i {
                assert(precedes(keys, y[i] as int, y[k] as int));
            }
        }
        assert(x[i] == y[i]);
        assert(x.take(n) =~= y.take(n)) by {
            assert forall|m: int| 0 <= m < n implies x[m] == y[m] by {
                if m < i {
                    assert(x.take(i)[m] == y.take(i)[m]);
                }
            }
        }
    }
}

/// Whether key `a` is less than key `b`.
fn less(a: (u128, u128), b: (u128, u128)) -> (r: bool)
    ensures
        r == key_less(a, b),
{
    a.0 < b.0 || (a.0 == b.0 && a.1 < b.1)
}

/// The positions of `keys` in the order of a stable sort.
pub fn rank_order(keys: &[(u128, u128)]) -> (r: Vec<usize>)
    ensures
        r@ == ranking(keys@),
        is_ranked(r@, keys@),
{
    let mut out: Vec<usize> = Vec::new();
    let mut n: usize = 0;
    while n < keys.len()
        invariant
            n <= keys@.len(),
            out@.len() == n,
            forall|i: int| 0 <= i < n ==> (#[trigger] out@[i]) < n,
            forall|i: int, j: int|
                0 <= i < j < n ==> precedes(keys@, #[trigger] out@[i] as int, #[trigger] out@[j] as int),
        decreases keys@.len() - n,
    {
        let mut at: usize = 0;
        while at < n && !less(keys[n], keys[out[at]])
            invariant
                n < keys@.len(),
                at <= n,
                out@.len() == n,
                forall|i: int| 0 <= i < n ==> (#[trigger] out@[i]) < n,
                forall|i: int| 0 <= i < at ==> precedes(keys@, #[trigger] out@[i] as int, n as int),
            ensures
                at <= n,
                forall|i: int| 0 <= i < at ==> precedes(keys@, #[trigger] out@[i] as int, n as int),
                at < n ==> key_less(keys@[n as int], keys@[out@[at as int] as int]),
            decreases n - at,
        {
            at += 1;
        }
        let ghost before = out@;
        out.insert(at, n);
        proof {
            assert forall|i: int, j: int| 0 <= i < j < n + 1 implies precedes(
                keys@,
                #[trigger] out@[i] as int,
                #[trigger] out@[j] as int,
            ) by {
                if j == at {
                    assert(out@[i] == before[i]);
                } else if i == at {
                    assert(out@[j] == before[j - 1]);
                    if at < j - 1 {
                        assert(precedes(keys@, before[at as int] as int, before[j - 1] as int));
                    }
                } else {
                    let i0 = if i < at { i } else { i - 1 };
                    let j0 = if j < at { j } else { j - 1 };
                    assert(out@[i] == before[i0] && out@[j] == before[j0]);
                }
            }
            assert forall|i: int| 0 <= i < n + 1 implies (#[trigger] out@[i]) < n + 1 by {
                if i < at {
                    assert(out@[i] == before[i]);
                } else if i > at {
                    assert(out@[i] == before[i - 1]);
                }
            }
        }
        n += 1;
    }
    proof {
        lemma_ranking_unique(out@, keys@);
    }
    out
}

/// Where the last key goes among the ranked others: before the first greater one.
spec fn slot(keys: Seq<(u128, u128)>, order: Seq<usize>, i: int) -> int
    decreases order.len() - i,
{
    if i < 0 || i >= order.len() || key_less(keys.last(), keys[order[i] as int]) {
        i
    } else {
        slot(keys, order, i + 1)
    }
}

/// Everything before the slot precedes the last key.
proof fn lemma_slot(keys: Seq<(u128, u128)>, order: Seq<usize>, i: int)
    requires
        0 <= i <= order.len(),
        keys.len() > 0,
        forall|j: int| 0 <= j < order.len() ==> (#[trigger] order[j]) < keys.len() - 1,
        forall|j: int|
            0 <= j < i ==> precedes(keys, #[trigger] order[j] as int, keys.len() - 1),
    ensures
        i <= slot(keys, order, i) <= order.len(),
        forall|j: int|
            0 <= j < slot(keys, order, i) ==> precedes(
                keys,
                #[trigger] order[j] as int,
                keys.len() - 1,
            ),
        slot(keys, order, i) < order.len() ==> key_less(
            keys.last(),
            keys[order[slot(keys, order, i)] as int],
        ),
    decreases order.len() - i,
{
    if i < order.len() && !key_less(keys.last(), keys[order[i] as int]) {
        lemma_slot(keys, order, i + 1);
    }
}

/// A stable sort: items come by key, equal ones in the order they had, and they
/// are those that there were, each as often as before.
pub proof fn lemma_ranking<T>(s: Seq<T>, keys: Seq<(u128, u128)>)
    requires
        s.len() == keys.len(),
        keys.len() <= usize::MAX,
    ensures
        is_ranked(ranking(keys), keys),
        arranged(s, ranking(keys)).to_multiset() == s.to_multiset(),
    decreases keys.len(),
{
    broadcast use vstd::multiset::group_multiset_axioms;

    if keys.len() == 0 {
        let none = Seq::<usize>::empty();
        assert(is_ranked(none, keys));
        lemma_ranking_unique(none, keys);
        assert(arranged(s, none) == s);
    } else {
        let n = keys.len() - 1;
        let before = keys.drop_last();
        lemma_ranking(s.drop_last(), before);
        let order = ranking(before);
        assert forall|j: int| 0 <= j < order.len() implies keys[order[j] as int] == before[(
        #[trigger] order[j]) as int] by {}
        lemma_slot(keys, order, 0);
        let at = slot(keys, order, 0);
        let wider = order.insert(at, n as usize);
        assert forall|i: int, j: int| 0 <= i < j < wider.len() implies precedes(
            keys,
            #[trigger] wider[i] as int,
            #[trigger] wider[j] as int,
        ) by {
            if j == at {
                assert(wider[i] == order[i]);
            } else if i == at {
                assert(wider[j] == order[j - 1]);
                if at < j - 1 {
                    assert(precedes(before, order[at] as int, order[j - 1] as int));
                }
            } else {
                let i0 = if i < at { i } else { i - 1 };
                let j0 = if j < at { j } else { j - 1 };
                assert(wider[i] == order[i0] && wider[j] == order[j0]);
                assert(precedes(before, order[i0] as int, order[j0] as int));
            }
        }
        assert forall|i: int| 0 <= i < wider.len() implies (#[trigger] wider[i]) < keys.len() by {
            if i < at {
                assert(wider[i] == order[i]);
            } else if i > at {
                assert(wider[i] == order[i - 1]);
            }
        }
        assert(is_ranked(wider, keys));
        lemma_ranking_unique(wider, keys);
        let items = arranged(s, wider);
        assert(items.remove(at) == arranged(s.drop_last(), order)) by {
            assert forall|i: int| 0 <= i < order.len() implies items.remove(at)[i] == arranged(
                s.drop_last(),
                order,
            )[i] by {
                assert(order[i] < n);
            }
        }
        items.to_multiset_ensures();
        s.drop_last().to_multiset_ensures();
        assert(s.drop_last().push(s.last()) == s);
        assert(items[at] == s.last());
        assert(items.contains(s.last()));
        assert(items.to_multiset() == items.remove(at).to_multiset().insert(s.last()));
    }
}

} // verus!
