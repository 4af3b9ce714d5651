use std::collections::HashMap;
use std::hash::Hash;
use vstd::prelude::*;
use vstd::std_specs::hash::obeys_key_model;

verus! {

/// The map built by inserting the first `n` pairs `(keys[i], values[i])` in order,
/// so that a later pair replaces an earlier one with the same key.
pub open spec fn zip_map<K, V>(keys: Seq<K>, values: Seq<V>, n: int) -> Map<K, V>
    decreases n,
{
    if n <= 0 {
        Map::empty()
    } else {
        zip_map(keys, values, n - 1).insert(keys[n - 1], values[n - 1])
    }
}

/// The views of a list of strings.
pub open spec fn string_views(v: Seq<String>) -> Seq<Seq<char>> {
    v.map_values(|s: String| s@)
}

/// The number of pairs that zipping two sequences yields.
pub open spec fn zip_len(a: nat, b: nat) -> nat {
    if a <= b { a } else { b }
}

proof fn lemma_zip_map_distinct<K, V>(keys: Seq<K>, values: Seq<V>, n: int)
    requires
        0 <= n <= keys.len(),
        n <= values.len(),
        keys.no_duplicates(),
    ensures
        zip_map(keys, values, n).dom().finite(),
        zip_map(keys, values, n).len() == n,
        forall|k: K| #[trigger]
            zip_map(keys, values, n).contains_key(k) <==> exists|i: int| 0 <= i < n && #[trigger] keys[i] == k,
        forall|i: int| 0 <= i < n ==> #[trigger] zip_map(keys, values, n)[keys[i]] == values[i],
    decreases n,
{
    if n > 0 {
        lemma_zip_map_distinct(keys, values, n - 1);
        let prev = zip_map(keys, values, n - 1);
        if prev.contains_key(keys[n - 1]) {
            let i = choose|i: int| 0 <= i < n - 1 && #[trigger] keys[i] == keys[n - 1];
            assert(false);
        }
        assert(prev.dom().insert(keys[n - 1]).len() == prev.dom().len() + 1);
        let cur = zip_map(keys, values, n);
        assert(cur.dom() == prev.dom().insert(keys[n - 1]));
        assert forall|k: K| #[trigger] cur.contains_key(k) <==> exists|i: int| 0 <= i < n && #[trigger] keys[i] == k by {
            if cur.contains_key(k) && k != keys[n - 1] {
                let i = choose|i: int| 0 <= i < n - 1 && #[trigger] keys[i] == k;
                assert(0 <= i < n && keys[i] == k);
            }
            if exists|i: int| 0 <= i < n && #[trigger] keys[i] == k {
                let i = choose|i: int| 0 <= i < n && keys[i] == k;
                if i < n - 1 {
                    assert(prev.contains_key(keys[i]));
                }
            }
        }
        assert forall|i: int| 0 <= i < n implies #[trigger] cur[keys[i]] == values[i] by {
            if i < n - 1 {
                assert(keys[i] != keys[n - 1]);
                assert(prev[keys[i]] == values[i]);
            }
        }
    }
}

/// When the keys are distinct, the map that `vecs2map` builds has one entry per
/// zipped pair, holds exactly the zipped keys, and maps each to its own value.
pub proof fn lemma_vecs2map_distinct_keys<K, V>(keys: Seq<K>, values: Seq<V>)
    requires
        keys.no_duplicates(),
    ensures
        ({
            let n = zip_len(keys.len(), values.len()) as int;
            let m = zip_map(keys, values, n);
            &&& m.len() == n
            &&& forall|k: K| #[trigger]
                m.contains_key(k) <==> exists|i: int| 0 <= i < n && #[trigger] keys[i] == k
            &&& forall|i: int| 0 <= i < n ==> #[trigger] m[keys[i]] == values[i]
        }),
{
    lemma_zip_map_distinct(keys, values, zip_len(keys.len(), values.len()) as int);
}

/// Pairs up `keys` and `values` position by position (the longer one is cut to
/// the length of the shorter) and collects the pairs into a map; a key that
/// occurs twice keeps its last value.
pub fn vecs2map<K: Eq + Hash, V>(keys: Vec<K>, values: Vec<V>) -> (r: HashMap<K, V>)
    ensures
        obeys_key_model::<K>() ==> r@ == zip_map(
            keys@,
            values@,
            zip_len(keys@.len(), values@.len()) as int,
        ),
{
    broadcast use vstd::std_specs::hash::group_hash_axioms;

    let ghost ks = keys@;
    let ghost vs = values@;
    let n: usize = if keys.len() <= values.len() { keys.len() } else { values.len() };
    let mut keys = keys;
    let mut values = values;
    let mut ret: HashMap<K, V> = HashMap::new();
    let mut i: usize = 0;
    while i < n
        invariant
            n == zip_len(ks.len(), vs.len()),
            i <= n,
            keys@ == ks.subrange(i as int, ks.len() as int),
            values@ == vs.subrange(i as int, vs.len() as int),
            obeys_key_model::<K>() ==> ret@ == zip_map(ks, vs, i as int),
        decreases n - i,
    {
        let k = keys.remove(0);
        let v = values.remove(0);
        ret.insert(k, v);
        proof {
            assert(keys@ =~= ks.subrange(i + 1, ks.len() as int));
            assert(values@ =~= vs.subrange(i + 1, vs.len() as int));
        }
        i = i + 1;
    }
    ret
}

} // verus!
