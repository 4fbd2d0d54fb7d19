//! String-keyed tables kept as vectors of pairs, looked up by the first match.
use vstd::prelude::*;

verus! {

/// The keys of a table, as views.
pub open spec fn keys<V>(m: Seq<(String, V)>) -> Seq<Seq<char>> {
    m.map_values(|e: (String, V)| e.0@)
}

/// The index of the first occurrence of `k`.
pub open spec fn first_index(ks: Seq<Seq<char>>, k: Seq<char>) -> Option<int>
    decreases ks.len(),
{
    if ks.len() == 0 {
        None
    } else if ks[0] == k {
        Some(0)
    } else {
        match first_index(ks.drop_first(), k) {
            Some(i) => Some(i + 1),
            None => None,
        }
    }
}

/// `first_index` finds the first match, and finds none only where there is none.
pub proof fn lemma_first_index(ks: Seq<Seq<char>>, k: Seq<char>)
    ensures
        first_index(ks, k) matches Some(i) ==> 0 <= i < ks.len() && ks[i] == k && forall|j: int|
            0 <= j < i ==> ks[j] != k,
        first_index(ks, k) is None <==> forall|j: int| 0 <= j < ks.len() ==> ks[j] != k,
    decreases ks.len(),
{
    if ks.len() > 0 {
        lemma_first_index(ks.drop_first(), k);
        if ks[0] != k {
            assert forall|j: int| 1 <= j < ks.len() implies ks[j] == ks.drop_first()[j - 1] by {}
            if first_index(ks.drop_first(), k) is None {
                assert forall|j: int| 0 <= j < ks.len() implies ks[j] != k by {
                    if j > 0 {
                        assert(ks[j] == ks.drop_first()[j - 1]);
                    }
                }
            } else {
                let i = first_index(ks.drop_first(), k).unwrap();
                assert(ks[i + 1] == k);
            }
        }
    }
}

/// The position of the first entry whose key is `k`.
pub fn position<V>(m: &Vec<(String, V)>, k: &String) -> (r: Option<usize>)
    ensures
        r matches Some(i) ==> first_index(keys(m@), k@) == Some(i as int),
        r is None ==> first_index(keys(m@), k@) is None,
{
    let n = m.len();
    let mut i: usize = 0;
    proof {
        lemma_first_index(keys(m@), k@);
    }
    while i < n
        invariant
            0 <= i <= n,
            n == m@.len(),
            forall|j: int| 0 <= j < i ==> keys(m@)[j] != k@,
            first_index(keys(m@), k@) matches Some(x) ==> 0 <= x < n && keys(m@)[x] == k@
                && forall|j: int| 0 <= j < x ==> keys(m@)[j] != k@,
            first_index(keys(m@), k@) is None <==> forall|j: int|
                0 <= j < n ==> keys(m@)[j] != k@,
        decreases n - i,
    {
        if m[i].0 == *k {
            assert(keys(m@)[i as int] == k@);
            return Some(i);
        }
        i = i + 1;
    }
    None
}

} // verus!
