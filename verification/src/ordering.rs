//! Listing order: newest first.
use vstd::prelude::*;

verus! {

/// `order` lists every index of `keys` exactly once, by descending key, and
/// indices with equal keys in ascending order.
pub open spec fn is_desc_order(keys: Seq<i64>, order: Seq<usize>) -> bool {
    &&& order.len() == keys.len()
    &&& forall|i: int| 0 <= i < order.len() ==> (#[trigger] order[i] as int) < keys.len()
    &&& forall|i: int, j: int|
        0 <= i < order.len() && 0 <= j < order.len() && i != j ==> #[trigger] order[i]
            != #[trigger] order[j]
    &&& forall|i: int, j: int|
        0 <= i < j < order.len() ==> keys[#[trigger] order[i] as int] >= keys[#[trigger] order[j] as int]
    &&& forall|i: int, j: int|
        0 <= i < j < order.len() && keys[order[i] as int] == keys[order[j] as int] ==> #[trigger] order[i]
            < #[trigger] order[j]
}

/// Every index below `n` occurs in `order`, which has `n` distinct entries
/// below `n`.
pub proof fn lemma_order_covers(keys: Seq<i64>, order: Seq<usize>, k: int)
    requires
        is_desc_order(keys, order),
        0 <= k < keys.len(),
        keys.len() <= usize::MAX,
    ensures
        exists|i: int| 0 <= i < order.len() && order[i] == k,
{
    let s = order.to_set();
    order.unique_seq_to_set();
    if !(exists|i: int| 0 <= i < order.len() && order[i] == k) {
        let full = Set::new(|x: usize| (x as int) < keys.len());
        let smaller = full.remove(k as usize);
        assert forall|x: usize| s.contains(x) implies smaller.contains(x) by {
            let i = choose|i: int| 0 <= i < order.len() && order[i] == x;
            assert((order[i] as int) < keys.len());
            assert(order[i] != k);
        }
        assert(s.subset_of(smaller));
        lemma_usize_range_len(keys.len() as nat);
        vstd::set_lib::lemma_len_subset(s, smaller);
    }
}

proof fn lemma_usize_range_len(n: nat)
    requires
        n <= usize::MAX + 1,
    ensures
        Set::new(|x: usize| (x as int) < n).finite(),
        Set::new(|x: usize| (x as int) < n).len() == n,
    decreases n,
{
    let s = Set::new(|x: usize| (x as int) < n);
    if n == 0 {
        assert(s =~= Set::<usize>::empty());
    } else {
        let t = Set::new(|x: usize| (x as int) < n - 1);
        lemma_usize_range_len((n - 1) as nat);
        assert(s =~= t.insert((n - 1) as usize));
    }
}

/// The indices of `keys`, newest (largest key) first; equal keys keep their
/// order.
pub fn order_desc(keys: &Vec<i64>) -> (r: Vec<usize>)
    ensures
        is_desc_order(keys@, r@),
{
    let mut order: Vec<usize> = Vec::new();
    let mut n: usize = 0;
    while n < keys.len()
        invariant
            n <= keys.len(),
            is_desc_order(keys@.take(n as int), order@),
        decreases keys.len() - n,
    {
        let ghost prefix = keys@.take(n as int);
        let ghost next = keys@.take(n + 1);
        assert forall|i: int| 0 <= i < n implies next[i] == prefix[i] by {}
        let k = keys[n];
        let mut p: usize = 0;
        while p < order.len() && keys[order[p]] >= k
            invariant
                p <= order.len(),
                is_desc_order(prefix, order@),
                prefix == keys@.take(n as int),
                n < keys.len(),
                k == keys@[n as int],
                forall|i: int| 0 <= i < p ==> keys@[#[trigger] order@[i] as int] >= k,
            decreases order.len() - p,
        {
            p = p + 1;
        }
        let ghost old_order = order@;
        order.insert(p, n);
        proof {
            let o = order@;
            assert(o =~= old_order.insert(p as int, n));
            assert forall|i: int| 0 <= i < o.len() implies (#[trigger] o[i] as int) < next.len() by {
                if i < p {
                    assert(o[i] == old_order[i]);
                } else if i > p {
                    assert(o[i] == old_order[i - 1]);
                }
            }
            assert forall|i: int, j: int|
                0 <= i < o.len() && 0 <= j < o.len() && i != j implies #[trigger] o[i]
                != #[trigger] o[j] by {
                if i != p && j != p {
                    let a = if i < p { i } else { i - 1 };
                    let b = if j < p { j } else { j - 1 };
                    assert(o[i] == old_order[a]);
                    assert(o[j] == old_order[b]);
                } else if i == p {
                    let b = if j < p { j } else { j - 1 };
                    assert(o[j] == old_order[b]);
                } else {
                    let a = if i < p { i } else { i - 1 };
                    assert(o[i] == old_order[a]);
                }
            }
            assert forall|i: int, j: int| 0 <= i < j < o.len() implies next[#[trigger] o[i] as int]
                >= next[#[trigger] o[j] as int] by {
                if j < p {
                    assert(o[i] == old_order[i] && o[j] == old_order[j]);
                } else if i > p {
                    assert(o[i] == old_order[i - 1] && o[j] == old_order[j - 1]);
                } else if i < p && j == p {
                    assert(o[i] == old_order[i]);
                } else if i < p && j > p {
                    assert(o[i] == old_order[i] && o[j] == old_order[j - 1]);
                } else if i == p {
                    assert(o[j] == old_order[j - 1]);
                    if j - 1 == p as int {
                    } else {
                        assert(prefix[old_order[p as int] as int] >= prefix[old_order[j - 1] as int]);
                    }
                }
            }
            assert forall|i: int, j: int|
                0 <= i < j < o.len() && next[o[i] as int] == next[o[j] as int] implies #[trigger] o[i]
                < #[trigger] o[j] by {
                if j < p {
                    assert(o[i] == old_order[i] && o[j] == old_order[j]);
                } else if i > p {
                    assert(o[i] == old_order[i - 1] && o[j] == old_order[j - 1]);
                } else if i < p && j == p {
                    assert(o[i] == old_order[i]);
                } else if i < p && j > p {
                    assert(o[i] == old_order[i] && o[j] == old_order[j - 1]);
                } else if i == p {
                    assert(o[j] == old_order[j - 1]);
                    assert(next[o[j] as int] < k);
                }
            }
        }
        n = n + 1;
    }
    assert(keys@.take(keys.len() as int) =~= keys@);
    order
}

} // verus!
