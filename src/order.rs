//! Stable ordering by a pair of integer keys: entries are ordered by the first
//! key, then the second, and entries with equal keys keep their order.

use vstd::prelude::*;

verus! {

/// Entry `a` comes before entry `b`: a smaller first key, or an equal first
/// key and a smaller second key, or equal keys and an earlier position.
pub open spec fn before(keys: Seq<(i64, i64)>, a: int, b: int) -> bool {
    ||| keys[a].0 < keys[b].0
    ||| (keys[a].0 == keys[b].0 && keys[a].1 < keys[b].1)
    ||| (keys[a].0 == keys[b].0 && keys[a].1 == keys[b].1 && a < b)
}

/// `order` lists each position of `keys` once, in the order of `before`.
pub open spec fn sorted_order(keys: Seq<(i64, i64)>, order: Seq<usize>) -> bool {
    &&& order.len() == keys.len()
    &&& forall|i: int| 0 <= i < order.len() ==> (#[trigger] order[i]) < keys.len()
    &&& forall|i: int, j: int| 0 <= i < j < order.len() ==> before(keys, #[trigger] order[i] as int, #[trigger] order[j] as int)
    &&& forall|x: usize| x < keys.len() ==> #[trigger] order.contains(x)
}

fn comes_before(keys: &Vec<(i64, i64)>, a: usize, b: usize) -> (r: bool)
    requires
        a < keys@.len(),
        b < keys@.len(),
    ensures
        r == before(keys@, a as int, b as int),
{
    let (a0, a1) = keys[a];
    let (b0, b1) = keys[b];
    a0 < b0 || (a0 == b0 && a1 < b1) || (a0 == b0 && a1 == b1 && a < b)
}

/// The positions of `keys` in stable order of the keys.
pub fn order_by_keys(keys: &Vec<(i64, i64)>) -> (r: Vec<usize>)
    ensures
        sorted_order(keys@, r@),
{
    let n = keys.len();
    let mut r: Vec<usize> = Vec::new();
    let mut i: usize = 0;
    while i < n
        invariant
            n == keys@.len(),
            i <= n,
            r@.len() == i,
            forall|k: int| 0 <= k < r@.len() ==> (#[trigger] r@[k]) < i,
            forall|a: int, b: int| 0 <= a < b < r@.len() ==> before(keys@, #[trigger] r@[a] as int, #[trigger] r@[b] as int),
            forall|x: usize| x < i ==> #[trigger] r@.contains(x),
        decreases n - i,
    {
        let mut p: usize = 0;
        while p < r.len() && !comes_before(keys, i, r[p])
            invariant
                n == keys@.len(),
                i < n,
                p <= r@.len(),
                forall|k: int| 0 <= k < r@.len() ==> (#[trigger] r@[k]) < i,
                forall|k: int| 0 <= k < p ==> !before(keys@, i as int, #[trigger] r@[k] as int),
            decreases r@.len() - p,
        {
            p = p + 1;
        }
        let ghost old_r = r@;
        r.insert(p, i);
        proof {
            assert(r@ == old_r.insert(p as int, i));
            assert forall|k: int| 0 <= k < r@.len() implies (#[trigger] r@[k]) < i + 1 by {
                if k < p {
                    assert(r@[k] == old_r[k]);
                } else if k > p {
                    assert(r@[k] == old_r[k - 1]);
                }
            }
            assert forall|a: int, b: int| 0 <= a < b < r@.len() implies before(keys@, #[trigger] r@[a] as int, #[trigger] r@[b] as int) by {
                if a < p && b < p {
                    assert(r@[a] == old_r[a] && r@[b] == old_r[b]);
                } else if a < p && b == p {
                    assert(r@[a] == old_r[a]);
                    assert(!before(keys@, i as int, old_r[a] as int));
                    assert(old_r[a] < i);
                } else if a < p && b > p {
                    assert(r@[a] == old_r[a] && r@[b] == old_r[b - 1]);
                } else if a == p {
                    assert(r@[b] == old_r[b - 1]);
                    assert(b - 1 >= p);
                    if b - 1 > p {
                        assert(before(keys@, old_r[p as int] as int, old_r[b - 1] as int));
                    }
                    assert(before(keys@, i as int, old_r[p as int] as int));
                } else {
                    assert(r@[a] == old_r[a - 1] && r@[b] == old_r[b - 1]);
                }
            }
            assert forall|x: usize| x < i + 1 implies #[trigger] r@.contains(x) by {
                if x == i {
                    assert(r@[p as int] == i);
                } else {
                    assert(old_r.contains(x));
                    let k = choose|k: int| 0 <= k < old_r.len() && old_r[k] == x;
                    if k < p {
                        assert(r@[k] == x);
                    } else {
                        assert(r@[k + 1] == x);
                    }
                }
            }
        }
        i = i + 1;
    }
    r
}

} // verus!
