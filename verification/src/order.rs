//! Ordering records by a key, largest first.

use vstd::prelude::*;

verus! {

/// `perm` lists each of the positions `0..n` once.
pub open spec fn is_arrangement(perm: Seq<int>, n: int) -> bool {
    &&& perm.len() == n
    &&& forall|k: int| 0 <= k < n ==> 0 <= #[trigger] perm[k] < n
    &&& forall|k: int, l: int| 0 <= k < l < n ==> perm[k] != perm[l]
    &&& forall|i: int| 0 <= i < n ==> #[trigger] perm.contains(i)
}

/// `perm` puts the keys in descending order and keeps equal keys in the
/// order they had.
pub open spec fn sorts_descending(perm: Seq<int>, keys: Seq<u64>) -> bool {
    &&& is_arrangement(perm, keys.len() as int)
    &&& forall|k: int, l: int|
        0 <= k < l < perm.len() ==> keys[#[trigger] perm[k]] >= keys[#[trigger] perm[l]]
    &&& forall|k: int, l: int|
        0 <= k < l < perm.len() && keys[#[trigger] perm[k]] == keys[#[trigger] perm[l]] ==> perm[k]
            < perm[l]
}

/// `out` holds the items of `items` in the order that `perm` gives.
pub open spec fn arranged<T>(out: Seq<T>, items: Seq<T>, perm: Seq<int>) -> bool {
    &&& out.len() == items.len()
    &&& perm.len() == items.len()
    &&& forall|k: int| 0 <= k < out.len() ==> #[trigger] out[k] == items[perm[k]]
}

/// The items in descending order of their keys; items with equal keys
/// stay in the order they came in.
pub fn sort_descending<T>(items: Vec<T>, keys: &Vec<u64>) -> (r: Vec<T>)
    requires
        items.len() == keys.len(),
    ensures
        r.len() == items.len(),
        exists|perm: Seq<int>| sorts_descending(perm, keys@) && arranged(r@, items@, perm),
{
    let ghost all = items@;
    let n = items.len();
    let mut items = items;
    let mut out: Vec<T> = Vec::new();
    let mut out_keys: Vec<u64> = Vec::new();
    let ghost mut perm: Seq<int> = Seq::empty();
    while items.len() > 0
        invariant
            n == keys.len(),
            n == all.len(),
            items.len() <= n,
            items@ == all.take(items.len() as int),
            out.len() == n - items.len(),
            out_keys.len() == out.len(),
            perm.len() == out.len(),
            forall|k: int| 0 <= k < perm.len() ==> items.len() <= #[trigger] perm[k] < n,
            forall|k: int| 0 <= k < perm.len() ==> #[trigger] out[k] == all[perm[k]],
            forall|k: int| 0 <= k < perm.len() ==> #[trigger] out_keys[k] == keys[perm[k]],
            forall|k: int, l: int| 0 <= k < l < perm.len() ==> perm[k] != perm[l],
            forall|i: int| items.len() <= i < n ==> #[trigger] perm.contains(i),
            forall|k: int, l: int|
                0 <= k < l < perm.len() ==> keys[#[trigger] perm[k]] >= keys[#[trigger] perm[l]],
            forall|k: int, l: int|
                0 <= k < l < perm.len() && keys[#[trigger] perm[k]] == keys[#[trigger] perm[l]]
                    ==> perm[k] < perm[l],
        decreases items.len(),
    {
        let ghost before = items@;
        let ghost old_perm = perm;
        let ghost old_out = out@;
        let ghost old_keys = out_keys@;
        let i = items.len() - 1;
        let key = keys[i];
        let item = items.pop().unwrap();
        assert(item == all[i as int]);
        assert(items@ =~= all.take(i as int));
        let mut p: usize = 0;
        while p < out_keys.len() && out_keys[p] > key
            invariant
                p <= out_keys.len(),
                forall|k: int| 0 <= k < p ==> out_keys[k] > key,
            decreases out_keys.len() - p,
        {
            p += 1;
        }
        out.insert(p, item);
        out_keys.insert(p, key);
        proof {
            perm = old_perm.insert(p as int, i as int);
            assert forall|k: int| 0 <= k < perm.len() implies #[trigger] out[k] == all[perm[k]] by {
                if k < p {
                    assert(out[k] == old_out[k]);
                } else if k > p {
                    assert(out[k] == old_out[k - 1]);
                }
            }
            assert forall|k: int| 0 <= k < perm.len() implies #[trigger] out_keys[k] == keys[perm[k]] by {
                if k < p {
                    assert(out_keys[k] == old_keys[k]);
                } else if k > p {
                    assert(out_keys[k] == old_keys[k - 1]);
                }
            }
            assert forall|j: int| i <= j < n implies #[trigger] perm.contains(j) by {
                if j == i {
                    assert(perm[p as int] == i);
                } else {
                    assert(old_perm.contains(j));
                    let k0 = choose|k: int| 0 <= k < old_perm.len() && old_perm[k] == j;
                    if k0 < p {
                        assert(perm[k0] == j);
                    } else {
                        assert(perm[k0 + 1] == j);
                    }
                }
            }
            assert forall|k: int, l: int| 0 <= k < l < perm.len() implies keys[#[trigger] perm[k]]
                >= keys[#[trigger] perm[l]] by {
                if k == p {
                    assert(old_keys[l - 1] == keys[old_perm[l - 1]]);
                } else if l == p {
                    assert(old_keys[k] == keys[old_perm[k]]);
                }
            }
            assert forall|k: int, l: int|
                0 <= k < l < perm.len() && keys[#[trigger] perm[k]] == keys[#[trigger] perm[l]] implies perm[k]
                < perm[l] by {
                if l == p {
                    assert(old_keys[k] == keys[old_perm[k]]);
                }
            }
        }
    }
    proof {
        assert(sorts_descending(perm, keys@));
        assert(arranged(out@, all, perm));
    }
    out
}

} // verus!
