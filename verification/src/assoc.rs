//! Association lists keyed by strings: the maps of the simulator, kept in
//! insertion order with unique keys. They stand where a `HashMap` keyed by
//! instrument id would: a hash map walks its entries in an order that
//! differs from process to process, and with `String` keys Verus proves
//! little about one, while a list gives each lookup and update an exact
//! specification over its sequence of (key, value) pairs.
use vstd::prelude::*;

verus! {

/// The keys as character sequences.
pub open spec fn assoc_view<V>(v: Seq<(String, V)>) -> Seq<(Seq<char>, V)> {
    v.map_values(|e: (String, V)| (e.0@, e.1))
}

/// The index of the last entry with key `k`, or -1.
pub open spec fn key_index<V>(s: Seq<(Seq<char>, V)>, k: Seq<char>) -> int
    decreases s.len(),
{
    if s.len() == 0 {
        -1
    } else if s.last().0 == k {
        s.len() - 1
    } else {
        key_index(s.drop_last(), k)
    }
}

pub proof fn lemma_key_index<V>(s: Seq<(Seq<char>, V)>, k: Seq<char>)
    ensures
        -1 <= key_index(s, k) < s.len(),
        key_index(s, k) >= 0 ==> s[key_index(s, k)].0 == k,
        key_index(s, k) == -1 ==> forall|j: int| 0 <= j < s.len() ==> (#[trigger] s[j]).0 != k,
    decreases s.len(),
{
    if s.len() > 0 && s.last().0 != k {
        lemma_key_index(s.drop_last(), k);
        assert forall|j: int| 0 <= j < s.len() && key_index(s, k) == -1 implies (#[trigger] s[j]).0 != k by {
            if j < s.len() - 1 {
                assert(s[j] == s.drop_last()[j]);
            }
        }
    }
}

proof fn lemma_key_index_same_keys<V>(s: Seq<(Seq<char>, V)>, t: Seq<(Seq<char>, V)>, k: Seq<char>)
    requires
        s.len() == t.len(),
        forall|i: int| 0 <= i < s.len() ==> (#[trigger] s[i]).0 == t[i].0,
    ensures
        key_index(s, k) == key_index(t, k),
    decreases s.len(),
{
    if s.len() > 0 {
        assert(s.last().0 == t.last().0);
        assert forall|i: int| 0 <= i < s.drop_last().len() implies (#[trigger] s.drop_last()[i]).0 == t.drop_last()[i].0 by {
            assert(s.drop_last()[i] == s[i]);
            assert(t.drop_last()[i] == t[i]);
        }
        lemma_key_index_same_keys(s.drop_last(), t.drop_last(), k);
    }
}

/// The value under key `k`.
pub open spec fn assoc_get<V>(s: Seq<(Seq<char>, V)>, k: Seq<char>) -> Option<V> {
    let i = key_index(s, k);
    if i >= 0 {
        Some(s[i].1)
    } else {
        None
    }
}

/// Sets the value under key `k`: in place when present, else appended.
pub open spec fn assoc_set<V>(s: Seq<(Seq<char>, V)>, k: Seq<char>, v: V) -> Seq<(Seq<char>, V)> {
    let i = key_index(s, k);
    if i >= 0 {
        s.update(i, (k, v))
    } else {
        s.push((k, v))
    }
}

/// A value set under a key is what a read of that key gives back.
pub proof fn assoc_set_then_get<V>(s: Seq<(Seq<char>, V)>, k: Seq<char>, v: V)
    ensures
        assoc_get(assoc_set(s, k, v), k) == Some(v),
{
    lemma_key_index(s, k);
    let i = key_index(s, k);
    if i >= 0 {
        let t = s.update(i, (k, v));
        lemma_key_index_same_keys(s, t, k);
    } else {
        assert(s.push((k, v)).last().0 == k);
    }
}

/// Setting a key leaves the value under every other key as it was.
pub proof fn assoc_set_keeps_others<V>(s: Seq<(Seq<char>, V)>, k: Seq<char>, j: Seq<char>, v: V)
    requires
        j != k,
    ensures
        assoc_get(assoc_set(s, k, v), j) == assoc_get(s, j),
{
    lemma_key_index(s, k);
    lemma_key_index(s, j);
    let i = key_index(s, k);
    if i >= 0 {
        let t = s.update(i, (k, v));
        lemma_key_index_same_keys(s, t, j);
    } else {
        assert(s.push((k, v)).drop_last() =~= s);
    }
}

/// Finds the index of key `k` (the last entry holding it).
pub fn find_key<V>(v: &Vec<(String, V)>, k: &String) -> (r: Option<usize>)
    ensures
        match r {
            Some(i) => i == key_index(assoc_view(v@), k@) && i < v@.len(),
            None => key_index(assoc_view(v@), k@) == -1,
        },
{
    let ghost s = assoc_view(v@);
    let mut i: usize = v.len();
    proof {
        assert(s.take(s.len() as int) =~= s);
    }
    while i > 0
        invariant
            0 <= i <= v@.len(),
            s == assoc_view(v@),
            key_index(s, k@) == key_index(s.take(i as int), k@),
        decreases i,
    {
        proof {
            assert(s.take(i as int).drop_last() =~= s.take(i - 1));
            assert(s.take(i as int).last() == s[i - 1]);
        }
        if v[i - 1].0 == *k {
            return Some(i - 1);
        }
        i = i - 1;
    }
    proof {
        assert(s.take(0).len() == 0);
    }
    None
}

/// Sets the value under key `k`.
pub fn assoc_insert<V: Copy>(v: &mut Vec<(String, V)>, k: &String, val: V)
    ensures
        assoc_view(final(v)@) == assoc_set(assoc_view(old(v)@), k@, val),
{
    let ghost s = assoc_view(v@);
    match find_key(v, k) {
        Some(i) => {
            v.set(i, (k.clone(), val));
            proof {
                assert(assoc_view(v@) =~= s.update(i as int, (k@, val)));
            }
        },
        None => {
            v.push((k.clone(), val));
            proof {
                assert(assoc_view(v@) =~= s.push((k@, val)));
            }
        },
    }
}

/// The value under key `k`, if any.
pub fn assoc_lookup<V: Copy>(v: &Vec<(String, V)>, k: &String) -> (r: Option<V>)
    ensures
        r == assoc_get(assoc_view(v@), k@),
{
    match find_key(v, k) {
        Some(i) => Some(v[i].1),
        None => None,
    }
}

} // verus!
