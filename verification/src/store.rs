use vstd::prelude::*;

verus! {

// The keyed record store is modelled as a sequence of records abstracted
// into a map from each record's key to its mathematical image. The host
// guarantees exclusive, transactional access per invocation, so a plain
// in-memory sequence with distinct keys is a faithful model.

/// No two records of `s` share a key.
pub open spec fn keys_distinct<T, K>(s: Seq<T>, key: spec_fn(T) -> K) -> bool {
    forall|i: int, j: int| 0 <= i < j < s.len() ==> key(s[i]) != key(s[j])
}

/// The map image of a keyed sequence of records.
pub open spec fn keyed_map<T, K, V>(s: Seq<T>, key: spec_fn(T) -> K, val: spec_fn(T) -> V) -> Map<
    K,
    V,
>
    decreases s.len(),
{
    if s.len() == 0 {
        Map::empty()
    } else {
        keyed_map(s.drop_last(), key, val).insert(key(s.last()), val(s.last()))
    }
}

/// With distinct keys, the map image holds exactly the records of the
/// sequence: each record is found under its key, and every key in the
/// domain comes from some record.
pub proof fn lemma_keyed_map_chars<T, K, V>(s: Seq<T>, key: spec_fn(T) -> K, val: spec_fn(T) -> V)
    requires
        keys_distinct(s, key),
    ensures
        forall|i: int|
            0 <= i < s.len() ==> keyed_map(s, key, val).dom().contains(#[trigger] key(s[i]))
                && keyed_map(s, key, val)[key(s[i])] == val(s[i]),
        forall|k: K|
            keyed_map(s, key, val).dom().contains(k) ==> exists|i: int|
                0 <= i < s.len() && #[trigger] key(s[i]) == k,
    decreases s.len(),
{
    if s.len() > 0 {
        let prefix = s.drop_last();
        assert(forall|i: int| 0 <= i < prefix.len() ==> prefix[i] == s[i]);
        lemma_keyed_map_chars(prefix, key, val);
        assert(s.last() == s[s.len() - 1]);
        assert forall|i: int| 0 <= i < s.len() implies keyed_map(s, key, val).dom().contains(
            #[trigger] key(s[i]),
        ) && keyed_map(s, key, val)[key(s[i])] == val(s[i]) by {
            if i < s.len() - 1 {
                assert(key(s[i]) != key(s[s.len() - 1]));
            }
        }
        assert forall|k: K| keyed_map(s, key, val).dom().contains(k) implies exists|i: int|
            0 <= i < s.len() && #[trigger] key(s[i]) == k by {
            if k == key(s[s.len() - 1]) {
                assert(key(s[s.len() - 1]) == k);
            } else {
                assert(keyed_map(prefix, key, val).dom().contains(k));
                let i = choose|i: int| 0 <= i < prefix.len() && #[trigger] key(prefix[i]) == k;
                assert(key(s[i]) == k);
            }
        }
    }
}

/// Appending a record whose key is fresh inserts its image into the map.
pub proof fn lemma_keyed_map_push<T, K, V>(
    s: Seq<T>,
    key: spec_fn(T) -> K,
    val: spec_fn(T) -> V,
    r: T,
)
    ensures
        keyed_map(s.push(r), key, val) == keyed_map(s, key, val).insert(key(r), val(r)),
{
    assert(s.push(r).drop_last() =~= s);
    assert(s.push(r).last() == r);
}

/// Overwriting the record at `i` with one that keeps its key updates the
/// map image at that key and nothing else.
pub proof fn lemma_keyed_map_update<T, K, V>(
    s: Seq<T>,
    key: spec_fn(T) -> K,
    val: spec_fn(T) -> V,
    i: int,
    r: T,
)
    requires
        keys_distinct(s, key),
        0 <= i < s.len(),
        key(r) == key(s[i]),
    ensures
        keys_distinct(s.update(i, r), key),
        keyed_map(s.update(i, r), key, val) =~= keyed_map(s, key, val).insert(key(r), val(r)),
    decreases s.len(),
{
    let s2 = s.update(i, r);
    assert(forall|j: int| 0 <= j < s.len() && j != i ==> s2[j] == s[j]);
    assert(s2[i] == r);
    if i == s.len() - 1 {
        assert(s2.drop_last() =~= s.drop_last());
        assert(s2.last() == r);
        assert(s.last() == s[i]);
        lemma_keyed_map_chars(s.drop_last(), key, val);
        assert(keyed_map(s2, key, val) == keyed_map(s.drop_last(), key, val).insert(
            key(r),
            val(r),
        ));
        assert(keyed_map(s, key, val) == keyed_map(s.drop_last(), key, val).insert(
            key(s[i]),
            val(s[i]),
        ));
        assert(keyed_map(s2, key, val) =~= keyed_map(s, key, val).insert(key(r), val(r)));
    } else {
        let prefix = s.drop_last();
        assert(forall|j: int| 0 <= j < prefix.len() ==> prefix[j] == s[j]);
        assert(s2.drop_last() =~= prefix.update(i, r));
        assert(s2.last() == s.last());
        lemma_keyed_map_update(prefix, key, val, i, r);
        // The two inserted keys differ, so the inserts commute.
        assert(key(s.last()) == key(s[s.len() - 1]));
        assert(key(s[i]) != key(s[s.len() - 1]));
        assert(keyed_map(s2, key, val) == keyed_map(prefix, key, val).insert(
            key(r),
            val(r),
        ).insert(key(s.last()), val(s.last())));
        assert(keyed_map(s2, key, val) =~= keyed_map(s, key, val).insert(key(r), val(r)));
    }
}

/// Overwrite the record at `i`, in place.
pub fn replace_at<T>(v: &mut Vec<T>, i: usize, r: T)
    requires
        i < old(v)@.len(),
    ensures
        final(v)@ == old(v)@.update(i as int, r),
{
    let ghost s0 = v@;
    v.remove(i);
    v.insert(i, r);
    proof {
        assert(v@ =~= s0.update(i as int, r));
    }
}

} // verus!
