//! Tables kept as vectors of entries, each entry carrying its own name. The table that such a
//! vector stands for maps each name to the value of the last entry that carries it.
use vstd::prelude::*;

verus! {

/// The map that the entries `s` stand for: the name of each entry to its value, later entries
/// taking the place of earlier ones under the same name.
pub open spec fn keyed<T, V>(s: Seq<T>, key: spec_fn(T) -> Seq<char>, val: spec_fn(T) -> V) -> Map<Seq<char>, V>
    decreases s.len(),
{
    if s.len() == 0 {
        Map::empty()
    } else {
        keyed(s.drop_last(), key, val).insert(key(s.last()), val(s.last()))
    }
}

/// `i` is the last position of `s` whose entry is named `k`.
pub open spec fn last_named<T>(s: Seq<T>, key: spec_fn(T) -> Seq<char>, k: Seq<char>, i: int) -> bool {
    &&& 0 <= i < s.len()
    &&& key(s[i]) == k
    &&& forall|j: int| i < j < s.len() ==> key(#[trigger] s[j]) != k
}

/// No entry of `s` is named `k`.
pub open spec fn unnamed<T>(s: Seq<T>, key: spec_fn(T) -> Seq<char>, k: Seq<char>) -> bool {
    forall|j: int| 0 <= j < s.len() ==> key(#[trigger] s[j]) != k
}

/// No two entries of `s` share a name.
pub open spec fn names_distinct<T>(s: Seq<T>, key: spec_fn(T) -> Seq<char>) -> bool {
    forall|i: int, j: int| 0 <= i < j < s.len() ==> key(#[trigger] s[i]) != key(#[trigger] s[j])
}

pub proof fn lemma_keyed_push<T, V>(s: Seq<T>, key: spec_fn(T) -> Seq<char>, val: spec_fn(T) -> V, x: T)
    ensures
        keyed(s.push(x), key, val) == keyed(s, key, val).insert(key(x), val(x)),
{
    assert(s.push(x).drop_last() =~= s);
}

pub proof fn lemma_keyed_absent<T, V>(s: Seq<T>, key: spec_fn(T) -> Seq<char>, val: spec_fn(T) -> V, k: Seq<char>)
    requires
        unnamed(s, key, k),
    ensures
        !keyed(s, key, val).contains_key(k),
    decreases s.len(),
{
    if s.len() > 0 {
        assert(key(s[s.len() - 1]) != k);
        lemma_keyed_absent(s.drop_last(), key, val, k);
    }
}

pub proof fn lemma_keyed_last<T, V>(s: Seq<T>, key: spec_fn(T) -> Seq<char>, val: spec_fn(T) -> V, k: Seq<char>, i: int)
    requires
        last_named(s, key, k, i),
    ensures
        keyed(s, key, val).contains_key(k),
        keyed(s, key, val)[k] == val(s[i]),
    decreases s.len(),
{
    if i < s.len() - 1 {
        assert(key(s[s.len() - 1]) != k);
        lemma_keyed_last(s.drop_last(), key, val, k, i);
    }
}

/// Replacing the last entry named `k` by another entry named `k` rebinds `k` alone.
pub proof fn lemma_keyed_update<T, V>(s: Seq<T>, key: spec_fn(T) -> Seq<char>, val: spec_fn(T) -> V, k: Seq<char>, i: int, x: T)
    requires
        last_named(s, key, k, i),
        key(x) == k,
    ensures
        keyed(s.update(i, x), key, val) == keyed(s, key, val).insert(k, val(x)),
    decreases s.len(),
{
    let t = s.update(i, x);
    if i == s.len() - 1 {
        assert(t.drop_last() =~= s.drop_last());
        assert(keyed(t, key, val) =~= keyed(s, key, val).insert(k, val(x)));
    } else {
        assert(key(s[s.len() - 1]) != k);
        assert(t.drop_last() =~= s.drop_last().update(i, x));
        lemma_keyed_update(s.drop_last(), key, val, k, i, x);
        assert(keyed(t, key, val) =~= keyed(s, key, val).insert(k, val(x)));
    }
}

} // verus!
