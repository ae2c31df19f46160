//! Sorting.
use vstd::prelude::*;
use vstd::relations::{sorted_by, total_ordering};

verus! {

/// The order of unsigned numbers.
pub open spec fn not_above() -> spec_fn(u64, u64) -> bool {
    |a: u64, b: u64| a <= b
}

/// Numbers in ascending order.
pub open spec fn ascending(values: Seq<u64>) -> Seq<u64> {
    values.sort_by(not_above())
}

/// Sort numbers in ascending order.
pub fn sort_ascending(values: &[u64]) -> (sorted: Vec<u64>)
    ensures
        sorted@ == ascending(values@),
        sorted@.len() == values@.len(),
{
    broadcast use vstd::seq_lib::group_to_multiset_ensures;

    let mut out: Vec<u64> = Vec::new();
    let mut i: usize = 0;
    while i < values.len()
        invariant
            i <= values@.len(),
            sorted_by(out@, not_above()),
            out@.to_multiset() == values@.take(i as int).to_multiset(),
        decreases values@.len() - i,
    {
        let x: u64 = values[i];
        let mut k: usize = out.len();
        while k > 0 && out[k - 1] > x
            invariant
                k <= out@.len(),
                sorted_by(out@, not_above()),
                forall|j: int| k <= j < out@.len() ==> #[trigger] out@[j] > x,
            decreases k,
        {
            k = k - 1;
        }
        let ghost before = out@;
        proof {
            assert forall|j: int| 0 <= j < k implies #[trigger] before[j] <= x by {
                if j < k - 1 {
                    assert(not_above()(before[j], before[k - 1]));
                }
            }
        }
        out.insert(k, x);
        proof {
            assert(out@ == before.insert(k as int, x));
            vstd::seq_lib::to_multiset_insert(before, k as int, x);
            values@.take(i as int).to_multiset_ensures();
            assert(values@.take(i + 1) =~= values@.take(i as int).push(x));
            assert forall|a: int, b: int| 0 <= a < b < out@.len() implies #[trigger] not_above()(
                out@[a],
                out@[b],
            ) by {
                let a0 = if a < k {
                    a
                } else {
                    a - 1
                };
                let b0 = if b < k {
                    b
                } else {
                    b - 1
                };
                if a != k && b != k {
                    assert(not_above()(before[a0], before[b0]));
                }
            }
        }
        i = i + 1;
    }
    proof {
        assert(values@.take(values@.len() as int) =~= values@);
        lemma_not_above_is_total();
        values@.lemma_sort_by_ensures(not_above());
        vstd::seq_lib::lemma_sorted_unique(out@, values@.sort_by(not_above()), not_above());
        assert(out@.to_multiset().len() == out@.len());
        assert(values@.to_multiset().len() == values@.len());
    }
    out
}

proof fn lemma_not_above_is_total()
    ensures
        total_ordering(not_above()),
{
}

/// Sorting keeps the numbers, each as often as it came up, and puts none before a
/// smaller one.
pub proof fn law_ascending_numbers_rise(values: Seq<u64>)
    ensures
        ascending(values).to_multiset() == values.to_multiset(),
        ascending(values).len() == values.len(),
        forall|i: int, j: int|
            0 <= i < j < values.len() ==> #[trigger] ascending(values)[i] <= #[trigger] ascending(
                values,
            )[j],
{
    broadcast use vstd::seq_lib::group_to_multiset_ensures;

    lemma_not_above_is_total();
    values.lemma_sort_by_ensures(not_above());
    let sorted = ascending(values);
    assert(sorted.len() == sorted.to_multiset().len());
    assert(values.len() == values.to_multiset().len());
    assert forall|i: int, j: int| 0 <= i < j < values.len() implies #[trigger] sorted[i]
        <= #[trigger] sorted[j] by {
        assert(not_above()(sorted[i], sorted[j]));
    }
}

/// The order of positions by their key, the earlier first among equals.
pub open spec fn before_by(keys: Seq<i128>) -> spec_fn(int, int) -> bool {
    |a: int, b: int| keys[a] < keys[b] || (keys[a] == keys[b] && a <= b)
}

/// The positions of a sequence in ascending order of their keys; equal keys keep
/// their order.
pub open spec fn ranking(keys: Seq<i128>) -> Seq<int> {
    Seq::new(keys.len(), |i: int| i).sort_by(before_by(keys))
}

/// The positions of `keys` in ascending order of key; equal keys keep their
/// order.
pub fn rank(keys: &[i128]) -> (order: Vec<usize>)
    ensures
        order@.map_values(|i: usize| i as int) == ranking(keys@),
        order@.len() == keys@.len(),
        forall|i: int| 0 <= i < order@.len() ==> #[trigger] order@[i] < keys@.len(),
{
    broadcast use vstd::seq_lib::group_to_multiset_ensures;

    let ghost leq = before_by(keys@);
    let ghost all = Seq::new(keys@.len(), |i: int| i);
    let mut out: Vec<usize> = Vec::new();
    let ghost mut wide: Seq<int> = Seq::empty();
    let mut i: usize = 0;
    while i < keys.len()
        invariant
            i <= keys@.len(),
            leq == before_by(keys@),
            all == Seq::new(keys@.len(), |i: int| i),
            out@.len() == i,
            wide == out@.map_values(|i: usize| i as int),
            forall|j: int| 0 <= j < out@.len() ==> #[trigger] out@[j] < i,
            sorted_by(wide, leq),
            wide.to_multiset() == all.take(i as int).to_multiset(),
        decreases keys@.len() - i,
    {
        let x: i128 = keys[i];
        let mut k: usize = out.len();
        while k > 0 && keys[out[k - 1]] > x
            invariant
                k <= out@.len(),
                i < keys@.len(),
                x == keys@[i as int],
                forall|j: int| 0 <= j < out@.len() ==> #[trigger] out@[j] < i,
                forall|j: int| k <= j < out@.len() ==> keys@[#[trigger] out@[j] as int] > x,
            decreases k,
        {
            k = k - 1;
        }
        let ghost before = out@;
        let ghost wide_before = wide;
        proof {
            assert forall|j: int| 0 <= j < k implies #[trigger] leq(wide_before[j], i as int) by {
                assert(wide_before[k - 1] == before[k - 1] as int);
                if j < k - 1 {
                    assert(leq(wide_before[j], wide_before[k - 1]));
                }
                assert(before[j] < i);
            }
            assert forall|j: int| k <= j < wide_before.len() implies #[trigger] leq(
                i as int,
                wide_before[j],
            ) by {
                assert(wide_before[j] == before[j] as int);
            }
        }
        out.insert(k, i);
        proof {
            wide = wide_before.insert(k as int, i as int);
            assert(wide =~= out@.map_values(|i: usize| i as int));
            vstd::seq_lib::to_multiset_insert(wide_before, k as int, i as int);
            all.take(i as int).to_multiset_ensures();
            assert(all.take(i + 1) =~= all.take(i as int).push(i as int));
            assert forall|a: int, b: int| 0 <= a < b < wide.len() implies #[trigger] leq(
                wide[a],
                wide[b],
            ) by {
                let a0 = if a < k {
                    a
                } else {
                    a - 1
                };
                let b0 = if b < k {
                    b
                } else {
                    b - 1
                };
                if a != k && b != k {
                    assert(leq(wide_before[a0], wide_before[b0]));
                } else if a == k {
                    assert(leq(i as int, wide_before[b0]));
                } else {
                    assert(leq(wide_before[a0], i as int));
                }
            }
            assert forall|j: int| 0 <= j < out@.len() implies #[trigger] out@[j] < i + 1 by {
                if j < k {
                    assert(out@[j] == before[j]);
                } else if j > k {
                    assert(out@[j] == before[j - 1]);
                }
            }
        }
        i = i + 1;
    }
    proof {
        assert(all.take(keys@.len() as int) =~= all);
        lemma_before_by_is_total(keys@);
        all.lemma_sort_by_ensures(leq);
        vstd::seq_lib::lemma_sorted_unique(wide, all.sort_by(leq), leq);
    }
    out
}

proof fn lemma_before_by_is_total(keys: Seq<i128>)
    ensures
        total_ordering(before_by(keys)),
{
}

/// The ranking goes through all positions once, in ascending order of key.
pub proof fn lemma_ranking(keys: Seq<i128>)
    ensures
        ranking(keys).len() == keys.len(),
        ranking(keys).to_multiset() == Seq::new(keys.len(), |i: int| i).to_multiset(),
        forall|a: int|
            0 <= a < keys.len() ==> 0 <= #[trigger] ranking(keys)[a] < keys.len(),
        forall|a: int, b: int|
            0 <= a < b < keys.len() ==> keys[#[trigger] ranking(keys)[a]] <= keys[#[trigger] ranking(
                keys,
            )[b]],
        forall|a: int, b: int|
            0 <= a < b < keys.len() && keys[#[trigger] ranking(keys)[a]]
                == keys[#[trigger] ranking(keys)[b]] ==> ranking(keys)[a] <= ranking(keys)[b],
{
    let all = Seq::new(keys.len(), |i: int| i);
    let leq = before_by(keys);
    all.lemma_sort_by_ensures(leq);
    let r = ranking(keys);
    r.to_multiset_ensures();
    all.to_multiset_ensures();
    assert forall|a: int| 0 <= a < keys.len() implies 0 <= #[trigger] r[a] < keys.len() by {
        assert(r.contains(r[a]));
        assert(r.to_multiset().count(r[a]) > 0);
        assert(all.to_multiset().count(r[a]) > 0);
        assert(all.contains(r[a]));
    }
    assert forall|a: int, b: int| 0 <= a < b < keys.len() implies keys[#[trigger] r[a]]
        <= keys[#[trigger] r[b]] by {
        assert(leq(r[a], r[b]));
    }
    assert forall|a: int, b: int|
        0 <= a < b < keys.len() && keys[#[trigger] r[a]] == keys[#[trigger] r[b]] implies r[a]
        <= r[b] by {
        assert(leq(r[a], r[b]));
    }
}

/// Two rows of the same items give, item by item, two rows of the same results.
pub proof fn lemma_same_items_same_results<A, B>(a: Seq<A>, b: Seq<A>, f: spec_fn(A) -> B)
    requires
        a.to_multiset() == b.to_multiset(),
    ensures
        a.map_values(f).to_multiset() == b.map_values(f).to_multiset(),
    decreases a.len(),
{
    broadcast use vstd::seq_lib::group_to_multiset_ensures;

    assert(a.len() == a.to_multiset().len() && b.len() == b.to_multiset().len());
    if a.len() == 0 {
        assert(a.map_values(f) =~= b.map_values(f));
    } else {
        let x = a.last();
        assert(a.contains(a[a.len() - 1]));
        assert(a.to_multiset().count(x) > 0);
        assert(b.contains(x));
        let i = choose|i: int| 0 <= i < b.len() && b[i] == x;
        assert(a.drop_last() =~= a.remove(a.len() - 1));
        lemma_same_items_same_results(a.drop_last(), b.remove(i), f);
        assert(a.map_values(f) =~= a.drop_last().map_values(f).push(f(x)));
        assert(b.map_values(f).remove(i) =~= b.remove(i).map_values(f));
        assert(b.map_values(f)[i] == f(x));
        assert(b.map_values(f).to_multiset() =~= b.map_values(f).remove(i).to_multiset().insert(
            f(x),
        )) by {
            assert(b.map_values(f) =~= b.map_values(f).remove(i).insert(i, f(x)));
            vstd::seq_lib::to_multiset_insert(b.map_values(f).remove(i), i, f(x));
        }
    }
}

/// Putting items in order neither adds nor loses any.
pub proof fn lemma_reordered<T>(items: Seq<T>, keys: Seq<i128>)
    requires
        keys.len() == items.len(),
    ensures
        reordered(items, keys).to_multiset() == items.to_multiset(),
        reordered(items, keys).len() == items.len(),
{
    lemma_ranking(keys);
    let places = Seq::new(keys.len(), |i: int| i);
    let at = |i: int| items[i];
    lemma_same_items_same_results(ranking(keys), places, at);
    assert(places.map_values(at) =~= items);
}

/// Items in the order of their keys; equal keys keep their order.
pub open spec fn reordered<T>(items: Seq<T>, keys: Seq<i128>) -> Seq<T> {
    ranking(keys).map_values(|i: int| items[i])
}

} // verus!
