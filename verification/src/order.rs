//! Stable ordering by character keys: the order in which a stable sort by
//! key (such as `slice::sort_by` comparing the keys) leaves a sequence.
use vstd::prelude::*;
use crate::text::{lemma_seq_lt_asymmetric, lemma_seq_lt_irreflexive, lemma_seq_lt_total, lemma_seq_lt_transitive, rank_chars, seq_lt, Rank};

verus! {

/// Position `a` goes before position `b` when sorting stably by `keys`:
/// its key is smaller, or the keys are equal and `a` came first.
pub open spec fn ranks_before(keys: Seq<Seq<char>>, a: int, b: int) -> bool {
    seq_lt(keys[a], keys[b]) || (keys[a] == keys[b] && a < b)
}

/// `perm` lists the positions `0..keys.len()` in the order a stable sort by
/// `keys` puts them in.
pub open spec fn is_stable_order(keys: Seq<Seq<char>>, perm: Seq<int>) -> bool {
    &&& perm.len() == keys.len()
    &&& forall|i: int| 0 <= i < perm.len() ==> 0 <= #[trigger] perm[i] < keys.len()
    &&& forall|i: int, j: int|
        0 <= i < j < perm.len() ==> ranks_before(keys, #[trigger] perm[i], #[trigger] perm[j])
}

/// The positions of a `Vec<usize>` as integers.
pub open spec fn as_ints(v: Seq<usize>) -> Seq<int> {
    v.map_values(|x: usize| x as int)
}

proof fn lemma_ranks_before_transitive(keys: Seq<Seq<char>>, a: int, b: int, c: int)
    requires
        ranks_before(keys, a, b),
        ranks_before(keys, b, c),
    ensures
        ranks_before(keys, a, c),
{
    lemma_seq_lt_transitive(keys[a], keys[b], keys[c]);
}

/// Stable sort order is unique: two orders that both sort `keys` stably
/// are the same sequence.
pub proof fn law_stable_order_unique(keys: Seq<Seq<char>>, p: Seq<int>, q: Seq<int>)
    requires
        is_stable_order(keys, p),
        is_stable_order(keys, q),
    ensures
        p == q,
    decreases p.len(),
{
    lemma_stable_order_is_permutation(keys, p);
    lemma_stable_order_is_permutation(keys, q);
    assert forall|i: int| 0 <= i < p.len() implies p[i] == q[i] by {
        // p[i] has exactly i elements ranked before it in p, and likewise in q.
        lemma_rank_count(keys, p, i);
        assert(q.contains(p[i]));
        let j = choose|j: int| 0 <= j < q.len() && q[j] == p[i];
        lemma_rank_count(keys, q, j);
        lemma_same_rank_same_position(keys, p, q, i, j);
        assert(i == j);
    }
    assert(p =~= q);
}

/// Every position occurs in a stable order, exactly once.
pub proof fn lemma_stable_order_is_permutation(keys: Seq<Seq<char>>, p: Seq<int>)
    requires
        is_stable_order(keys, p),
    ensures
        forall|x: int| 0 <= x < keys.len() ==> #[trigger] p.contains(x),
        forall|i: int, j: int| 0 <= i < p.len() && 0 <= j < p.len() && i != j ==> p[i] != p[j],
{
    assert forall|i: int, j: int| 0 <= i < p.len() && 0 <= j < p.len() && i != j implies p[i]
        != p[j] by {
        if i < j {
            assert(ranks_before(keys, p[i], p[j]));
            lemma_seq_lt_irreflexive(keys[p[i]]);
        } else {
            assert(ranks_before(keys, p[j], p[i]));
            lemma_seq_lt_irreflexive(keys[p[j]]);
        }
    }
    lemma_distinct_in_range_covers(p, keys.len() as int);
}

proof fn lemma_distinct_in_range_covers(p: Seq<int>, n: int)
    requires
        p.len() == n,
        forall|i: int| 0 <= i < p.len() ==> 0 <= #[trigger] p[i] < n,
        forall|i: int, j: int| 0 <= i < p.len() && 0 <= j < p.len() && i != j ==> p[i] != p[j],
    ensures
        forall|x: int| 0 <= x < n ==> #[trigger] p.contains(x),
{
    let s = p.to_set();
    let r = Set::new(|x: int| 0 <= x < n);
    assert(s.subset_of(r));
    vstd::set_lib::lemma_int_range(0, n);
    assert(r == vstd::set_lib::set_int_range(0, n));
    p.unique_seq_to_set();
    assert(p.no_duplicates());
    vstd::set_lib::lemma_subset_equality(s, r);
    assert forall|x: int| 0 <= x < n implies #[trigger] p.contains(x) by {
        assert(r.contains(x));
        assert(s.contains(x));
    }
}

/// In a stable order, the element at position `i` has exactly the elements at
/// positions before `i` ranked before it.
proof fn lemma_rank_count(keys: Seq<Seq<char>>, p: Seq<int>, i: int)
    requires
        is_stable_order(keys, p),
        0 <= i < p.len(),
    ensures
        forall|j: int| 0 <= j < p.len() ==> (ranks_before(keys, p[j], p[i]) <==> j < i),
{
    assert forall|j: int| 0 <= j < p.len() implies (ranks_before(keys, p[j], p[i]) <==> j < i) by {
        if j > i {
            assert(ranks_before(keys, p[i], p[j]));
            lemma_seq_lt_asymmetric(keys[p[i]], keys[p[j]]);
        } else if j == i {
            lemma_seq_lt_irreflexive(keys[p[i]]);
        }
    }
}

proof fn lemma_same_rank_same_position(
    keys: Seq<Seq<char>>,
    p: Seq<int>,
    q: Seq<int>,
    i: int,
    j: int,
)
    requires
        is_stable_order(keys, p),
        is_stable_order(keys, q),
        0 <= i < p.len(),
        0 <= j < q.len(),
        p[i] == q[j],
        forall|k: int| 0 <= k < p.len() ==> (ranks_before(keys, p[k], p[i]) <==> k < i),
        forall|k: int| 0 <= k < q.len() ==> (ranks_before(keys, q[k], q[j]) <==> k < j),
    ensures
        i == j,
{
    lemma_stable_order_is_permutation(keys, p);
    lemma_stable_order_is_permutation(keys, q);
    // The set of elements ranked before p[i] is the first i elements of p and
    // the first j elements of q; both have no duplicates, so i == j.
    let before = Set::new(|x: int| 0 <= x < keys.len() && ranks_before(keys, x, p[i]));
    assert(p.take(i).to_set() =~= before) by {
        assert forall|x: int| p.take(i).to_set().contains(x) implies before.contains(x) by {
            let k = choose|k: int| 0 <= k < p.take(i).len() && p.take(i)[k] == x;
            assert(p[k] == x);
        }
        assert forall|x: int| before.contains(x) implies p.take(i).to_set().contains(x) by {
            assert(p.contains(x));
            let k = choose|k: int| 0 <= k < p.len() && p[k] == x;
            assert(k < i);
            assert(p.take(i)[k] == x);
        }
    }
    assert(q.take(j).to_set() =~= before) by {
        assert forall|x: int| q.take(j).to_set().contains(x) implies before.contains(x) by {
            let k = choose|k: int| 0 <= k < q.take(j).len() && q.take(j)[k] == x;
            assert(q[k] == x);
        }
        assert forall|x: int| before.contains(x) implies q.take(j).to_set().contains(x) by {
            assert(q.contains(x));
            let k = choose|k: int| 0 <= k < q.len() && q[k] == x;
            assert(k < j);
            assert(q.take(j)[k] == x);
        }
    }
    assert(p.take(i).no_duplicates());
    assert(q.take(j).no_duplicates());
    p.take(i).unique_seq_to_set();
    q.take(j).unique_seq_to_set();
}

/// The order in which a stable sort by `keys` puts the positions of `keys`.
pub fn stable_order(keys: &Vec<Vec<char>>) -> (perm: Vec<usize>)
    ensures
        is_stable_order(keys@.map_values(|k: Vec<char>| k@), as_ints(perm@)),
{
    let ghost ks = keys@.map_values(|k: Vec<char>| k@);
    let mut perm: Vec<usize> = Vec::new();
    let mut i: usize = 0;
    while i < keys.len()
        invariant
            i <= keys.len(),
            ks == keys@.map_values(|k: Vec<char>| k@),
            perm@.len() == i,
            forall|a: int| 0 <= a < perm@.len() ==> #[trigger] perm@[a] < i,
            forall|a: int, b: int|
                0 <= a < b < perm@.len() ==> ranks_before(
                    ks,
                    #[trigger] perm@[a] as int,
                    #[trigger] perm@[b] as int,
                ),
        decreases keys.len() - i,
    {
        // find the insertion point: after every element whose key is not greater
        let mut p: usize = perm.len();
        while p > 0 && rank_chars(&keys[i], &keys[perm[p - 1]]) == Rank::Before
            invariant
                p <= perm@.len(),
                i < keys.len(),
                ks == keys@.map_values(|k: Vec<char>| k@),
                forall|a: int| 0 <= a < perm@.len() ==> #[trigger] perm@[a] < i,
                forall|b: int| p <= b < perm@.len() ==> seq_lt(ks[i as int], ks[#[trigger] perm@[b] as int]),
            decreases p,
        {
            p -= 1;
        }
        let ghost old_perm = perm@;
        proof {
            if p > 0 {
                let q = perm@[p - 1] as int;
                assert(!seq_lt(ks[i as int], ks[q]));
                lemma_seq_lt_total(ks[i as int], ks[q]);
                assert(ranks_before(ks, q, i as int));
            }
        }
        perm.insert(p, i);
        proof {
            assert(perm@ == old_perm.insert(p as int, i));
            assert forall|a: int, b: int|
                0 <= a < b < perm@.len() implies ranks_before(
                ks,
                #[trigger] perm@[a] as int,
                #[trigger] perm@[b] as int,
            ) by {
                if a < p && b < p {
                    assert(perm@[a] == old_perm[a] && perm@[b] == old_perm[b]);
                } else if a < p && b == p {
                    let q = old_perm[p - 1] as int;
                    if a < p - 1 {
                        assert(ranks_before(ks, old_perm[a] as int, q));
                        lemma_ranks_before_transitive(ks, old_perm[a] as int, q, i as int);
                    }
                } else if a < p && b > p {
                    assert(perm@[a] == old_perm[a] && perm@[b] == old_perm[b - 1]);
                } else if a == p {
                    assert(perm@[b] == old_perm[b - 1]);
                    assert(seq_lt(ks[i as int], ks[old_perm[b - 1] as int]));
                } else {
                    assert(perm@[a] == old_perm[a - 1] && perm@[b] == old_perm[b - 1]);
                }
            }
        }
        i += 1;
    }
    proof {
        let pi = as_ints(perm@);
        assert forall|a: int, b: int| 0 <= a < b < pi.len() implies ranks_before(
            ks,
            #[trigger] pi[a],
            #[trigger] pi[b],
        ) by {
            assert(pi[a] == perm@[a] as int);
            assert(pi[b] == perm@[b] as int);
        }
    }
    perm
}

} // verus!
