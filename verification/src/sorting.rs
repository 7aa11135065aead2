//! Putting values in order.

use vstd::multiset::*;
use vstd::prelude::*;
use vstd::relations::*;

verus! {

/// The ascending order of numbers.
pub open spec fn ascending() -> spec_fn(u64, u64) -> bool {
    |a: u64, b: u64| a <= b
}

/// The values of `s` in ascending order.
pub open spec fn sorted_values(s: Seq<u64>) -> Seq<u64> {
    s.sort_by(ascending())
}

/// Sorting keeps the values and puts no larger one before a smaller one.
pub proof fn lemma_sorted_values(s: Seq<u64>)
    ensures
        sorted_values(s).len() == s.len(),
        sorted_values(s).to_multiset() == s.to_multiset(),
        forall|i: int, j: int|
            0 <= i <= j < s.len() ==> sorted_values(s)[i] <= sorted_values(s)[j],
        forall|i: int| 0 <= i < s.len() ==> s.contains(#[trigger] sorted_values(s)[i]),
        forall|i: int| 0 <= i < s.len() ==> sorted_values(s).contains(#[trigger] s[i]),
{
    let t = sorted_values(s);
    assert(total_ordering(ascending()));
    s.lemma_sort_by_ensures(ascending());
    s.to_multiset_ensures();
    t.to_multiset_ensures();
    assert forall|i: int, j: int| 0 <= i <= j < s.len() implies t[i] <= t[j] by {
        if i < j {
            assert(ascending()(t[i], t[j]));
        }
    }
    assert forall|i: int| 0 <= i < s.len() implies s.contains(#[trigger] t[i]) by {
        assert(t.contains(t[i]));
        assert(s.to_multiset().count(t[i]) > 0);
    }
    assert forall|i: int| 0 <= i < s.len() implies t.contains(#[trigger] s[i]) by {
        assert(s.contains(s[i]));
        assert(t.to_multiset().count(s[i]) > 0);
    }
}

/// Puts the values of `v` in ascending order.
pub fn sort_ascending(v: &Vec<u64>) -> (r: Vec<u64>)
    ensures
        r@ == sorted_values(v@),
{
    let mut out: Vec<u64> = Vec::new();
    let mut i: usize = 0;
    proof {
        assert(v@.take(0) =~= Seq::<u64>::empty());
        assert(out@ =~= v@.take(0));
    }
    while i < v.len()
        invariant
            i <= v@.len(),
            out@.len() == i,
            out@.to_multiset() == v@.take(i as int).to_multiset(),
            forall|a: int, b: int| 0 <= a <= b < out@.len() ==> out@[a] <= out@[b],
        decreases v@.len() - i,
    {
        let x: u64 = v[i];
        let mut k: usize = out.len();
        while k > 0 && out[k - 1] > x
            invariant
                k <= out@.len(),
                forall|b: int| k <= b < out@.len() ==> out@[b] > x,
            decreases k,
        {
            k = k - 1;
        }
        let ghost before = out@;
        out.insert(k, x);
        proof {
            vstd::seq_lib::to_multiset_insert(before, k as int, x);
            v@.take(i as int).to_multiset_ensures();
            assert(v@.take(i + 1) =~= v@.take(i as int).push(x));
            assert forall|a: int, b: int| 0 <= a <= b < out@.len() implies out@[a] <= out@[b] by {
                let a0 = if a < k { a } else { a - 1 };
                let b0 = if b < k { b } else { b - 1 };
                if a != k && b != k {
                    assert(out@[a] == before[a0] && out@[b] == before[b0]);
                } else if a == k && b != k {
                    assert(out@[b] == before[b0]);
                } else if b == k && a != k {
                    assert(out@[a] == before[a0]);
                    assert(before[a0] <= before[k - 1]);
                }
            }
        }
        i = i + 1;
    }
    proof {
        assert(v@.take(i as int) =~= v@);
        v@.lemma_sort_by_ensures(ascending());
        assert(sorted_by(out@, ascending()));
        vstd::seq_lib::lemma_sorted_unique(out@, v@.sort_by(ascending()), ascending());
    }
    out
}

/// Whether the key at `a` goes before the key at `b`: larger keys first, among
/// equal ones the earlier.
pub open spec fn goes_before(keys: Seq<u32>, a: int, b: int) -> bool {
    keys[a] > keys[b] || (keys[a] == keys[b] && a < b)
}

/// Whether `order` lists each position of `keys` once, larger keys first, equal
/// ones in the order in which they came.
pub open spec fn is_descending_order(keys: Seq<u32>, order: Seq<usize>) -> bool {
    &&& order.len() == keys.len()
    &&& forall|i: int| 0 <= i < order.len() ==> (#[trigger] order[i]) < keys.len()
    &&& forall|i: int, j: int|
        0 <= i < j < order.len() ==> goes_before(
            keys,
            #[trigger] order[i] as int,
            #[trigger] order[j] as int,
        )
}

/// The positions of `keys`, larger keys first, equal ones in the order in which
/// they came.
pub fn descending_order(keys: &Vec<u32>) -> (r: Vec<usize>)
    ensures
        is_descending_order(keys@, r@),
{
    let mut out: Vec<usize> = Vec::new();
    let mut i: usize = 0;
    while i < keys.len()
        invariant
            i <= keys@.len(),
            out@.len() == i,
            forall|a: int| 0 <= a < i ==> (#[trigger] out@[a]) < i,
            forall|a: int, b: int|
                0 <= a < b < i ==> goes_before(
                    keys@,
                    #[trigger] out@[a] as int,
                    #[trigger] out@[b] as int,
                ),
        decreases keys@.len() - i,
    {
        let x: u32 = keys[i];
        let mut k: usize = out.len();
        while k > 0 && keys[out[k - 1]] < x
            invariant
                i < keys@.len(),
                x == keys@[i as int],
                out@.len() == i,
                k <= i,
                forall|a: int| 0 <= a < i ==> (#[trigger] out@[a]) < i,
                forall|b: int| k <= b < i ==> keys@[(#[trigger] out@[b]) as int] < x,
            decreases k,
        {
            k = k - 1;
        }
        let ghost before = out@;
        out.insert(k, i);
        proof {
            assert forall|a: int| 0 <= a < i + 1 implies (#[trigger] out@[a]) < i + 1 by {
                let a0 = if a < k { a } else { a - 1 };
                if a != k {
                    assert(out@[a] == before[a0]);
                }
            }
            assert forall|a: int, b: int| 0 <= a < b < i + 1 implies goes_before(
                keys@,
                #[trigger] out@[a] as int,
                #[trigger] out@[b] as int,
            ) by {
                let a0 = if a < k { a } else { a - 1 };
                let b0 = if b < k { b } else { b - 1 };
                if a != k && b != k {
                    assert(out@[a] == before[a0] && out@[b] == before[b0]);
                } else if a == k {
                    assert(out@[b] == before[b0]);
                } else {
                    assert(out@[a] == before[a0]);
                    assert(before[a0] < i);
                    if a0 < k - 1 {
                        assert(goes_before(keys@, before[a0] as int, before[k - 1] as int));
                    }
                }
            }
        }
        i = i + 1;
    }
    out
}

/// There is only one such order.
pub proof fn lemma_descending_order_unique(keys: Seq<u32>, x: Seq<usize>, y: Seq<usize>)
    requires
        is_descending_order(keys, x),
        is_descending_order(keys, y),
    ensures
        x == y,
{
    lemma_order_lists_all(keys, x);
    lemma_order_lists_all(keys, y);
    lemma_order_prefix(keys, x, y, keys.len() as int);
    assert(x =~= y);
}

proof fn lemma_order_lists_all(keys: Seq<u32>, x: Seq<usize>)
    requires
        is_descending_order(keys, x),
    ensures
        forall|p: usize| p < keys.len() ==> #[trigger] x.contains(p),
{
    let n = keys.len();
    assert(x.no_duplicates()) by {
        assert forall|i: int, j: int| 0 <= i < x.len() && 0 <= j < x.len() && i != j implies x[i]
            != x[j] by {
            if i < j {
                assert(goes_before(keys, x[i] as int, x[j] as int));
            } else {
                assert(goes_before(keys, x[j] as int, x[i] as int));
            }
        }
    }
    let ints = x.map_values(|p: usize| p as int);
    let s = ints.to_set();
    assert(ints.no_duplicates()) by {
        assert forall|i: int, j: int|
            0 <= i < ints.len() && 0 <= j < ints.len() && i != j implies ints[i] != ints[j] by {
            assert(x[i] != x[j]);
        }
    }
    ints.unique_seq_to_set();
    let all = vstd::set_lib::set_int_range(0, n as int);
    vstd::set_lib::lemma_int_range(0, n as int);
    assert(s.subset_of(all)) by {
        assert forall|v: int| s.contains(v) implies all.contains(v) by {
            let i = choose|i: int| 0 <= i < ints.len() && ints[i] == v;
            assert(x[i] < n);
        }
    }
    vstd::set_lib::lemma_subset_equality(s, all);
    assert forall|p: usize| p < n implies #[trigger] x.contains(p) by {
        assert(all.contains(p as int));
        assert(s.contains(p as int));
        let i = choose|i: int| 0 <= i < ints.len() && ints[i] == p as int;
        assert(x[i] == p);
    }
}

proof fn lemma_order_prefix(keys: Seq<u32>, x: Seq<usize>, y: Seq<usize>, m: int)
    requires
        is_descending_order(keys, x),
        is_descending_order(keys, y),
        forall|p: usize| p < keys.len() ==> #[trigger] x.contains(p),
        forall|p: usize| p < keys.len() ==> #[trigger] y.contains(p),
        0 <= m <= keys.len(),
    ensures
        forall|i: int| 0 <= i < m ==> x[i] == y[i],
    decreases m,
{
    if m > 0 {
        let k = m - 1;
        lemma_order_prefix(keys, x, y, k);
        if x[k] != y[k] {
            assert(y.contains(x[k]));
            let j = choose|j: int| 0 <= j < y.len() && y[j] == x[k];
            assert(x.contains(y[k]));
            let i = choose|i: int| 0 <= i < x.len() && x[i] == y[k];
            if j < k {
                assert(x[j] == y[j]);
                assert(goes_before(keys, x[j] as int, x[k] as int));
            }
            if i < k {
                assert(x[i] == y[i]);
                assert(goes_before(keys, y[i] as int, y[k] as int));
            }
            assert(goes_before(keys, x[k] as int, x[i] as int));
            assert(goes_before(keys, y[k] as int, y[j] as int));
        }
    }
}

/// In descending order no key stands behind a smaller one, equal keys keep their order,
/// and no position comes twice.
pub proof fn lemma_descending(keys: Seq<u32>, order: Seq<usize>, i: int, j: int)
    requires
        is_descending_order(keys, order),
        0 <= i < j < order.len(),
    ensures
        keys[order[i] as int] >= keys[order[j] as int],
        keys[order[i] as int] == keys[order[j] as int] ==> order[i] < order[j],
        order[i] != order[j],
        order.len() == keys.len(),
{
    assert(goes_before(keys, order[i] as int, order[j] as int));
}

/// In descending order every position comes.
pub proof fn lemma_order_is_complete(keys: Seq<u32>, order: Seq<usize>, k: int)
    requires
        is_descending_order(keys, order),
        0 <= k < keys.len(),
    ensures
        exists|at: int| 0 <= at < order.len() && order[at] == k,
{
    let places = order.map_values(|p: usize| p as int);
    assert(places.no_duplicates()) by {
        assert forall|i: int, j: int|
            0 <= i < places.len() && 0 <= j < places.len() && i != j implies places[i]
            != places[j] by {
            if i < j {
                lemma_descending(keys, order, i, j);
            } else {
                lemma_descending(keys, order, j, i);
            }
        }
    }
    places.unique_seq_to_set();
    let all = vstd::set_lib::set_int_range(0, keys.len() as int);
    vstd::set_lib::lemma_int_range(0, keys.len() as int);
    assert(places.to_set().subset_of(all)) by {
        assert forall|p: int| places.to_set().contains(p) implies all.contains(p) by {
            let i = choose|i: int| 0 <= i < places.len() && places[i] == p;
            assert(order[i] < keys.len());
        }
    }
    vstd::set_lib::lemma_set_subset_finite(all, places.to_set());
    vstd::set_lib::lemma_subset_equality(places.to_set(), all);
    assert(places.to_set().contains(k));
    let at = choose|at: int| 0 <= at < places.len() && places[at] == k;
    assert(order[at] == k);
}

} // verus!
