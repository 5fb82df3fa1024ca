//! Sparse keyword vectors: each character of a text that is not
//! whitespace, lowercased, counted under a key made from its string hash
//! code.
use vstd::prelude::*;

use crate::text::{chars_of, is_blank, is_blank_str, is_whitespace, is_ws, lowercase, to_lowercase};
use crate::vector_search::{char_hash_code, sparse_term};

verus! {

/// The key a character is counted under: the hash code of the
/// one-character string, modulo one million.
pub open spec fn char_key(c: char) -> int {
    sparse_term(c)
}

/// How many characters of `s` that are not whitespace have the key `k`.
pub open spec fn key_count(s: Seq<char>, k: int) -> nat
    decreases s.len(),
{
    if s.len() == 0 {
        0
    } else {
        key_count(s.drop_last(), k) + (if !is_ws(s.last()) && char_key(s.last()) == k {
            1nat
        } else {
            0nat
        })
    }
}

/// Keys in strictly ascending order, each with a positive count.
pub open spec fn is_sparse(r: Seq<(i64, u64)>) -> bool {
    &&& forall|i: int, j: int| 0 <= i < j < r.len() ==> r[i].0 < r[j].0
    &&& forall|i: int| 0 <= i < r.len() ==> r[i].1 > 0
}

/// The count under `k`, zero where `k` is not a key.
pub open spec fn count_of(r: Seq<(i64, u64)>, k: int) -> nat {
    if exists|i: int| 0 <= i < r.len() && r[i].0 == k {
        r[choose|i: int| 0 <= i < r.len() && r[i].0 == k].1 as nat
    } else {
        0
    }
}

proof fn lemma_count_at(r: Seq<(i64, u64)>, p: int)
    requires
        is_sparse(r),
        0 <= p < r.len(),
    ensures
        count_of(r, r[p].0 as int) == r[p].1,
{
    let k = r[p].0 as int;
    assert(exists|i: int| 0 <= i < r.len() && r[i].0 == k);
    let i = choose|i: int| 0 <= i < r.len() && r[i].0 == k;
    if i < p {
        assert(r[i].0 < r[p].0);
    } else if p < i {
        assert(r[p].0 < r[i].0);
    }
}

proof fn lemma_count_absent(r: Seq<(i64, u64)>, k: int)
    requires
        forall|i: int| 0 <= i < r.len() ==> r[i].0 != k,
    ensures
        count_of(r, k) == 0,
{
}

fn utf16_key(c: char) -> (r: i64)
    ensures
        r == char_key(c),
{
    let h = char_hash_code(c);
    (h % 1_000_000) as i64
}

/// The first index of `r` whose key is at least `k`.
fn key_position(r: &Vec<(i64, u64)>, k: i64) -> (p: usize)
    requires
        is_sparse(r@),
    ensures
        p <= r@.len(),
        forall|i: int| 0 <= i < p ==> r@[i].0 < k,
        forall|i: int| p <= i < r@.len() ==> r@[i].0 >= k,
{
    let mut p: usize = 0;
    while p < r.len() && r[p].0 < k
        invariant
            is_sparse(r@),
            p <= r@.len(),
            forall|i: int| 0 <= i < p ==> r@[i].0 < k,
        decreases r.len() - p,
    {
        p = p + 1;
    }
    proof {
        if p < r@.len() {
            assert forall|i: int| p <= i < r@.len() implies r@[i].0 >= k by {
                if i > p {
                    assert(r@[p as int].0 < r@[i].0);
                }
            }
        }
    }
    p
}

/// The sparse vector of `content`: every key of its lowercased characters
/// that are not whitespace, ascending, with how many of them it has; none
/// where `content` is blank.
pub fn generate_sparse_vector(content: &str) -> (r: Vec<(i64, u64)>)
    ensures
        is_sparse(r@),
        forall|k: int|
            #[trigger] count_of(r@, k) == (if is_blank(content@) {
                0
            } else {
                key_count(lowercase(content@), k)
            }),
{
    let mut r: Vec<(i64, u64)> = Vec::new();
    if is_blank_str(content) {
        return r;
    }
    let lower = to_lowercase(content);
    let v = chars_of(lower.as_str());
    let total = v.len();
    let mut n: usize = 0;
    while n < total
        invariant
            total == v@.len(),
            v@ == lowercase(content@),
            n <= total,
            is_sparse(r@),
            forall|i: int| 0 <= i < r@.len() ==> r@[i].1 <= n,
            forall|k: int| #[trigger] count_of(r@, k) == key_count(v@.take(n as int), k),
        decreases total - n,
    {
        let c = v[n];
        let ghost before = r@;
        let ghost prefix = v@.take(n as int);
        assert(v@.take(n + 1).drop_last() =~= prefix);
        assert(v@.take(n + 1).last() == c);
        if !is_whitespace(c) {
            let k = utf16_key(c);
            let p = key_position(&r, k);
            if p < r.len() && r[p].0 == k {
                let old_count = r[p].1;
                r.set(p, (k, old_count + 1));
                proof {
                    assert forall|i: int, j: int| 0 <= i < j < r@.len() implies r@[i].0 < r@[j].0 by {
                        assert(before[i].0 < before[j].0);
                    }
                    assert forall|q: int| #[trigger] count_of(r@, q) == key_count(v@.take(n + 1), q) by {
                        if q == k {
                            lemma_count_at(before, p as int);
                            lemma_count_at(r@, p as int);
                        } else if exists|i: int| 0 <= i < before.len() && before[i].0 == q {
                            let i = choose|i: int| 0 <= i < before.len() && before[i].0 == q;
                            lemma_count_at(before, i);
                            lemma_count_at(r@, i);
                        } else {
                            lemma_count_absent(before, q);
                            assert forall|i: int| 0 <= i < r@.len() implies r@[i].0 != q by {
                                if i != p {
                                    assert(r@[i] == before[i]);
                                }
                            }
                            lemma_count_absent(r@, q);
                        }
                    }
                }
            } else {
                r.insert(p, (k, 1));
                proof {
                    assert forall|i: int, j: int| 0 <= i < j < r@.len() implies r@[i].0 < r@[j].0 by {
                        if j < p {
                            assert(before[i].0 < before[j].0);
                        } else if j == p {
                            assert(before[i].0 < k);
                        } else if i < p {
                            assert(r@[j] == before[j - 1]);
                            assert(before[i].0 < k);
                            assert(before[j - 1].0 >= k);
                        } else if i == p {
                            assert(r@[j] == before[j - 1]);
                            assert(before[j - 1].0 >= k);
                            if p < before.len() {
                                assert(before[p as int].0 != k);
                                if j - 1 > p {
                                    assert(before[p as int].0 < before[j - 1].0);
                                }
                            }
                        } else {
                            assert(r@[i] == before[i - 1]);
                            assert(r@[j] == before[j - 1]);
                        }
                    }
                    assert forall|q: int| #[trigger] count_of(r@, q) == key_count(v@.take(n + 1), q) by {
                        if q == k {
                            assert forall|i: int| 0 <= i < before.len() implies before[i].0 != q by {
                                if i >= p {
                                    if i > p {
                                        assert(before[p as int].0 < before[i].0);
                                    }
                                }
                            }
                            lemma_count_absent(before, q);
                            lemma_count_at(r@, p as int);
                        } else if exists|i: int| 0 <= i < before.len() && before[i].0 == q {
                            let i = choose|i: int| 0 <= i < before.len() && before[i].0 == q;
                            lemma_count_at(before, i);
                            if i < p {
                                assert(r@[i] == before[i]);
                                lemma_count_at(r@, i);
                            } else {
                                assert(r@[i + 1] == before[i]);
                                lemma_count_at(r@, i + 1);
                            }
                        } else {
                            lemma_count_absent(before, q);
                            assert forall|i: int| 0 <= i < r@.len() implies r@[i].0 != q by {
                                if i < p {
                                    assert(r@[i] == before[i]);
                                } else if i > p {
                                    assert(r@[i] == before[i - 1]);
                                }
                            }
                            lemma_count_absent(r@, q);
                        }
                    }
                }
            }
        } else {
            assert forall|q: int| #[trigger] count_of(r@, q) == key_count(v@.take(n + 1), q) by {
                assert(count_of(before, q) == key_count(prefix, q));
            }
        }
        n = n + 1;
    }
    assert(v@.take(total as int) =~= v@);
    r
}

} // verus!
