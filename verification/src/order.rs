//! Putting numbered things in order.
//!
//! Validators are listed by the number of their name.  The order is made
//! from the numbers alone: smaller numbers first, and of two equal numbers
//! the one that stood first stays first.

use vstd::prelude::*;

verus! {

/// Whether place `i` goes before place `j`: by its number, and among equal
/// numbers by the place itself.
pub open spec fn ranks_before(keys: Seq<i32>, i: int, j: int) -> bool {
    keys[i] < keys[j] || (keys[i] == keys[j] && i < j)
}

/// Whether `order` lists the places of `keys`, each once, so that every
/// place goes before the ones listed behind it.
pub open spec fn is_stable_order(keys: Seq<i32>, order: Seq<usize>) -> bool {
    &&& order.len() == keys.len()
    &&& forall|a: int| 0 <= a < order.len() ==> (#[trigger] order[a]) < keys.len()
    &&& forall|a: int, b: int|
        0 <= a < b < order.len() ==> ranks_before(keys, #[trigger] order[a] as int, #[trigger] order[b] as int)
    &&& forall|i: usize| i < keys.len() ==> #[trigger] order.contains(i)
}

/// The places of `keys` in ascending order of the keys; places with equal
/// keys keep their order.
pub fn stable_order(keys: &Vec<i32>) -> (order: Vec<usize>)
    ensures
        is_stable_order(keys@, order@),
{
    let mut order: Vec<usize> = Vec::new();
    let mut i: usize = 0;
    while i < keys.len()
        invariant
            i <= keys.len(),
            is_stable_order(keys@.subrange(0, i as int), order@),
        decreases keys.len() - i,
    {
        let ghost seen = keys@.subrange(0, i as int);
        let ghost grown = keys@.subrange(0, i + 1);
        let ghost before = order@;
        // The first place in `order` whose key is larger than the new one.
        let mut p: usize = 0;
        while p < order.len() && keys[order[p]] <= keys[i]
            invariant
                p <= order.len(),
                i < keys.len(),
                order@ == before,
                seen == keys@.subrange(0, i as int),
                is_stable_order(seen, order@),
                forall|a: int| 0 <= a < p ==> keys@[(#[trigger] order@[a]) as int] <= keys@[i as int],
            decreases order.len() - p,
        {
            p = p + 1;
        }
        order.insert(p, i);
        proof {
            let after = order@;
            assert(after.len() == i + 1);
            assert forall|a: int| 0 <= a < after.len() implies (#[trigger] after[a]) < grown.len() by {
                if a < p {
                    assert(after[a] == before[a]);
                } else if a > p {
                    assert(after[a] == before[a - 1]);
                }
            }
            assert forall|a: int, b: int| 0 <= a < b < after.len() implies ranks_before(
                grown,
                #[trigger] after[a] as int,
                #[trigger] after[b] as int,
            ) by {
                let a0 = if a < p {
                    a
                } else {
                    a - 1
                };
                let b0 = if b < p {
                    b
                } else {
                    b - 1
                };
                if a == p {
                    assert(after[b] == before[b0]);
                    if b0 > p {
                        assert(ranks_before(seen, before[p as int] as int, before[b0] as int));
                    }
                } else if b == p {
                    assert(after[a] == before[a0]);
                } else {
                    assert(after[a] == before[a0]);
                    assert(after[b] == before[b0]);
                    assert(ranks_before(seen, before[a0] as int, before[b0] as int));
                }
            }
            assert forall|k: usize| k < grown.len() implies #[trigger] after.contains(k) by {
                if k == i {
                    assert(after[p as int] == k);
                } else {
                    assert(before.contains(k));
                    let a0 = choose|a: int| 0 <= a < before.len() && before[a] == k;
                    if a0 < p {
                        assert(after[a0] == k);
                    } else {
                        assert(after[a0 + 1] == k);
                    }
                }
            }
        }
        i = i + 1;
    }
    assert(keys@.subrange(0, i as int) =~= keys@);
    order
}

/// An order lists no place twice.
pub proof fn lemma_order_lists_once(keys: Seq<i32>, order: Seq<usize>, a: int, b: int)
    requires
        is_stable_order(keys, order),
        0 <= a < order.len(),
        0 <= b < order.len(),
        a != b,
    ensures
        order[a] != order[b],
{
    if a < b {
        assert(ranks_before(keys, order[a] as int, order[b] as int));
    } else {
        assert(ranks_before(keys, order[b] as int, order[a] as int));
    }
}

/// Along an order the keys never fall.
pub proof fn lemma_order_ascends(keys: Seq<i32>, order: Seq<usize>, a: int, b: int)
    requires
        is_stable_order(keys, order),
        0 <= a <= b < order.len(),
    ensures
        keys[order[a] as int] <= keys[order[b] as int],
{
    if a < b {
        assert(ranks_before(keys, order[a] as int, order[b] as int));
    }
}

/// The keys in the order in which `order` lists their places.
pub open spec fn in_order(keys: Seq<i32>, order: Seq<usize>) -> Seq<i32> {
    Seq::new(order.len(), |k: int| keys[order[k] as int])
}

/// Whether `s` rises from each place to the next.
pub open spec fn rises(s: Seq<i32>) -> bool {
    forall|a: int, b: int| 0 <= a < b < s.len() ==> #[trigger] s[a] < #[trigger] s[b]
}

/// Two rising sequences of one length that hold the same values are the
/// same from the first place up to place `k`.
proof fn lemma_rising_alike(x: Seq<i32>, y: Seq<i32>, k: int)
    requires
        x.len() == y.len(),
        rises(x),
        rises(y),
        forall|i: int| 0 <= i < x.len() ==> y.contains(#[trigger] x[i]),
        forall|i: int| 0 <= i < y.len() ==> x.contains(#[trigger] y[i]),
        0 <= k < x.len(),
    ensures
        forall|j: int| 0 <= j <= k ==> #[trigger] x[j] == y[j],
    decreases k,
{
    if k > 0 {
        lemma_rising_alike(x, y, k - 1);
    }
    if x[k] < y[k] {
        assert(y.contains(x[k]));
        let m = choose|m: int| 0 <= m < y.len() && y[m] == x[k];
        if m < k {
            assert(x[m] == y[m]);
            assert(x[m] < x[k]);
        } else if m > k {
            assert(y[k] < y[m]);
        }
    } else if y[k] < x[k] {
        assert(x.contains(y[k]));
        let m = choose|m: int| 0 <= m < x.len() && x[m] == y[k];
        if m < k {
            assert(x[m] == y[m]);
            assert(y[m] < y[k]);
        } else if m > k {
            assert(x[k] < x[m]);
        }
    }
}

/// Keys of which no two are equal rise in their order, and the order holds
/// every one of them.
proof fn lemma_distinct_keys_rise(keys: Seq<i32>, order: Seq<usize>)
    requires
        is_stable_order(keys, order),
        keys.no_duplicates(),
        keys.len() <= usize::MAX,
    ensures
        rises(in_order(keys, order)),
        forall|i: int| 0 <= i < keys.len() ==> in_order(keys, order).contains(#[trigger] keys[i]),
        forall|k: int|
            0 <= k < order.len() ==> keys.contains(#[trigger] in_order(keys, order)[k]),
{
    let listed = in_order(keys, order);
    assert forall|a: int, b: int| 0 <= a < b < listed.len() implies #[trigger] listed[a]
        < #[trigger] listed[b] by {
        lemma_order_lists_once(keys, order, a, b);
        assert(ranks_before(keys, order[a] as int, order[b] as int));
    }
    assert forall|i: int| 0 <= i < keys.len() implies listed.contains(#[trigger] keys[i]) by {
        assert(order.contains(i as usize));
        let a = choose|a: int| 0 <= a < order.len() && order[a] == i as usize;
        assert(listed[a] == keys[i]);
    }
    assert forall|k: int| 0 <= k < order.len() implies keys.contains(#[trigger] listed[k]) by {
        assert(keys[order[k] as int] == listed[k]);
    }
}

/// The order does not depend on how the keys came in: where no two keys
/// are equal, two lists of the same keys give the same keys in order,
/// however each list is arranged.
pub proof fn lemma_order_ignores_arrangement(
    a: Seq<i32>,
    order_a: Seq<usize>,
    b: Seq<i32>,
    order_b: Seq<usize>,
)
    requires
        is_stable_order(a, order_a),
        is_stable_order(b, order_b),
        a.no_duplicates(),
        b.no_duplicates(),
        a.len() == b.len(),
        a.len() <= usize::MAX,
        forall|i: int| 0 <= i < a.len() ==> b.contains(#[trigger] a[i]),
        forall|i: int| 0 <= i < b.len() ==> a.contains(#[trigger] b[i]),
    ensures
        in_order(a, order_a) == in_order(b, order_b),
{
    let x = in_order(a, order_a);
    let y = in_order(b, order_b);
    lemma_distinct_keys_rise(a, order_a);
    lemma_distinct_keys_rise(b, order_b);
    assert forall|i: int| 0 <= i < x.len() implies y.contains(#[trigger] x[i]) by {
        assert(a.contains(x[i]));
        let j = choose|j: int| 0 <= j < a.len() && a[j] == x[i];
        assert(b.contains(a[j]));
        let m = choose|m: int| 0 <= m < b.len() && b[m] == a[j];
        assert(y.contains(b[m]));
    }
    assert forall|i: int| 0 <= i < y.len() implies x.contains(#[trigger] y[i]) by {
        assert(b.contains(y[i]));
        let j = choose|j: int| 0 <= j < b.len() && b[j] == y[i];
        assert(a.contains(b[j]));
        let m = choose|m: int| 0 <= m < a.len() && a[m] == b[j];
        assert(x.contains(a[m]));
    }
    if x.len() > 0 {
        lemma_rising_alike(x, y, x.len() - 1);
    }
    assert(x =~= y);
}

} // verus!
