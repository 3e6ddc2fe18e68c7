//! Stable ordering of a handful of items by an integer key.

use vstd::prelude::*;

verus! {

/// Item `a` comes before item `b`: by key, and by position where the keys tie.
pub open spec fn comes_before(keys: Seq<i64>, a: int, b: int) -> bool {
    keys[a] < keys[b] || (keys[a] == keys[b] && a < b)
}

/// `order` lists every position of `keys` once, smallest key first, and equal
/// keys in the order in which they stand.
pub open spec fn is_stable_order(order: Seq<usize>, keys: Seq<i64>) -> bool {
    &&& order.len() == keys.len()
    &&& forall|k: int| 0 <= k < order.len() ==> 0 <= #[trigger] order[k] < keys.len()
    &&& forall|i: int, j: int|
        0 <= i < j < order.len() ==> comes_before(
            keys,
            #[trigger] order[i] as int,
            #[trigger] order[j] as int,
        )
    &&& forall|i: usize| 0 <= i < keys.len() ==> #[trigger] order.contains(i)
}

/// The positions of `keys`, smallest key first. Equal keys keep their order.
pub fn stable_order(keys: &[i64]) -> (order: Vec<usize>)
    ensures
        is_stable_order(order@, keys@),
{
    let mut order: Vec<usize> = Vec::new();
    let mut n: usize = 0;
    while n < keys.len()
        invariant
            n <= keys@.len(),
            is_stable_order(order@, keys@.take(n as int)),
        decreases keys.len() - n,
    {
        let ghost seen = keys@.take(n as int);
        let ghost all = keys@.take(n + 1);
        let key: i64 = keys[n];
        let mut at: usize = order.len();
        while at > 0 && keys[order[at - 1]] > key
            invariant
                n < keys@.len(),
                key == keys@[n as int],
                seen == keys@.take(n as int),
                at <= order@.len(),
                is_stable_order(order@, seen),
                forall|k: int| at <= k < order@.len() ==> keys@[#[trigger] order@[k] as int] > key,
            decreases at,
        {
            at = at - 1;
        }
        let ghost before = order@;
        order.insert(at, n);
        proof {
            let new = order@;
            assert(new == before.insert(at as int, n));
            assert forall|k: int| 0 <= k < new.len() implies 0 <= #[trigger] new[k]
                < all.len() by {
                if k < at {
                    assert(new[k] == before[k]);
                } else if k > at {
                    assert(new[k] == before[k - 1]);
                }
            }
            assert forall|i: int, j: int| 0 <= i < j < new.len() implies comes_before(
                all,
                #[trigger] new[i] as int,
                #[trigger] new[j] as int,
            ) by {
                if at > 0 {
                    assert(keys@[before[at - 1] as int] <= key);
                }
                if i < at {
                    assert(new[i] == before[i]);
                    if i < at - 1 {
                        assert(comes_before(seen, before[i] as int, before[at - 1] as int));
                    }
                    assert(seen[before[i] as int] == keys@[before[i] as int]);
                    assert(seen[before[at - 1] as int] == keys@[before[at - 1] as int]);
                } else if i > at {
                    assert(new[i] == before[i - 1]);
                }
                if j < at {
                    assert(new[j] == before[j]);
                } else if j > at {
                    assert(new[j] == before[j - 1]);
                }
            }
            assert forall|i: usize| 0 <= i < all.len() implies #[trigger] new.contains(i) by {
                if i == n {
                    assert(new[at as int] == n);
                } else {
                    assert(before.contains(i));
                    let k = choose|k: int| 0 <= k < before.len() && before[k] == i;
                    if k < at {
                        assert(new[k] == i);
                    } else {
                        assert(new[k + 1] == i);
                    }
                }
            }
        }
        n = n + 1;
    }
    assert(keys@.take(n as int) =~= keys@);
    order
}

/// There is only one stable order of given keys.
pub proof fn law_stable_order_is_unique(a: Seq<usize>, b: Seq<usize>, keys: Seq<i64>, n: int)
    requires
        is_stable_order(a, keys),
        is_stable_order(b, keys),
        0 <= n <= keys.len(),
    ensures
        a.take(n) == b.take(n),
    decreases n,
{
    if n > 0 {
        law_stable_order_is_unique(a, b, keys, n - 1);
        let m = n - 1;
        assert(b.contains(a[m]) && a.contains(b[m]));
        let k = choose|k: int| 0 <= k < b.len() && b[k] == a[m];
        let l = choose|l: int| 0 <= l < a.len() && a[l] == b[m];
        if k < m {
            assert(a.take(m)[k] == b.take(m)[k]);
            assert(comes_before(keys, a[k] as int, a[m] as int));
        }
        if l < m {
            assert(a.take(m)[l] == b.take(m)[l]);
            assert(comes_before(keys, b[l] as int, b[m] as int));
        }
        if k > m {
            assert(comes_before(keys, b[m] as int, b[k] as int));
            if l > m {
                assert(comes_before(keys, a[m] as int, a[l] as int));
            }
        }
        assert(a[m] == b[m]);
        assert(a.take(n) =~= a.take(m).push(a[m]));
        assert(b.take(n) =~= b.take(m).push(b[m]));
    } else {
        assert(a.take(0) =~= b.take(0));
    }
}

/// A stable order goes from the smallest key up, keeps equal keys as they stand,
/// and lists every position exactly once.
pub proof fn law_stable_orders_go_upwards(order: Seq<usize>, keys: Seq<i64>, i: int, j: int)
    requires
        is_stable_order(order, keys),
        0 <= i < j < order.len(),
    ensures
        order.len() == keys.len(),
        keys[order[i] as int] <= keys[order[j] as int],
        keys[order[i] as int] == keys[order[j] as int] ==> order[i] < order[j],
        order[i] != order[j],
        order[i] < keys.len() && order[j] < keys.len(),
{
    assert(comes_before(keys, order[i] as int, order[j] as int));
}

} // verus!
