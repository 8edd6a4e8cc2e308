//! Lookup in constant key tables.
use vstd::prelude::*;

verus! {

/// The value of the first entry with key `k`.
pub open spec fn assoc<K, V>(t: Seq<(K, V)>, k: K) -> Option<V>
    decreases t.len(),
{
    if t.len() == 0 {
        None
    } else if t[0].0 == k {
        Some(t[0].1)
    } else {
        assoc(t.drop_first(), k)
    }
}

/// Index of the first entry with key `k`.
pub fn find_u16<V, const N: usize>(t: &[(u16, V); N], k: u16) -> (r: Option<usize>)
    ensures
        match r {
            Some(i) => i < N && assoc(t@, k) == Some(t@[i as int].1),
            None => assoc(t@, k) is None,
        },
{
    let mut i: usize = 0;
    assert(t@.skip(0) =~= t@);
    while i < N
        invariant
            i <= N,
            t@.len() == N,
            assoc(t@, k) == assoc(t@.skip(i as int), k),
        decreases N - i,
    {
        if t[i].0 == k {
            return Some(i);
        }
        assert(t@.skip(i as int).drop_first() =~= t@.skip(i + 1));
        i = i + 1;
    }
    None
}

/// Index of the first entry with key `k`.
pub fn find_i64<V, const N: usize>(t: &[(i64, V); N], k: i64) -> (r: Option<usize>)
    ensures
        match r {
            Some(i) => i < N && assoc(t@, k) == Some(t@[i as int].1),
            None => assoc(t@, k) is None,
        },
{
    let mut i: usize = 0;
    assert(t@.skip(0) =~= t@);
    while i < N
        invariant
            i <= N,
            t@.len() == N,
            assoc(t@, k) == assoc(t@.skip(i as int), k),
        decreases N - i,
    {
        if t[i].0 == k {
            return Some(i);
        }
        assert(t@.skip(i as int).drop_first() =~= t@.skip(i + 1));
        i = i + 1;
    }
    None
}


/// Whether `k` is one of the keys.
pub fn contains_u16<const N: usize>(t: &[u16; N], k: u16) -> (r: bool)
    ensures
        r == t@.contains(k),
{
    let mut i: usize = 0;
    while i < N
        invariant
            i <= N,
            t@.len() == N,
            forall|j: int| 0 <= j < i ==> t@[j] != k,
        decreases N - i,
    {
        if t[i] == k {
            assert(t@[i as int] == k);
            return true;
        }
        i = i + 1;
    }
    false
}

} // verus!
