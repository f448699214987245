//! The coercions behind the `Vec` and `HashMap` deserializers: how the
//! items of a JSON array and the entries of a JSON object are read, given
//! how one item is read.

use vstd::prelude::*;
use crate::error::{DeserializeError, ParseError};
use crate::value::JsonValue;
use std::collections::HashMap;
use vstd::std_specs::hash::obeys_key_model;

verus! {

/// Whether reading `v` can succeed: some value is a possible `Ok` result.
pub open spec fn item_reads<T, F: Fn(&JsonValue) -> Result<T, ParseError>>(item: F, v: JsonValue) -> bool {
    exists|x: T| item.ensures((&v,), Ok::<T, ParseError>(x))
}

/// Whether reading `v` strictly can succeed: some value is a possible result.
pub open spec fn item_reads_strictly<T, F: Fn(&JsonValue) -> Option<T>>(item: F, v: JsonValue) -> bool {
    exists|x: T| item.ensures((&v,), Some::<T>(x))
}

/// Whether a reader gives at most one result for each input.
pub open spec fn deterministic_reader<T, F: Fn(&JsonValue) -> Result<T, ParseError>>(item: F) -> bool {
    forall|v: JsonValue, a: Result<T, ParseError>, b: Result<T, ParseError>|
        #[trigger] item.ensures((&v,), a) && #[trigger] item.ensures((&v,), b) ==> a == b
}

/// With a reader that gives one result per input, an item whose reading
/// can fail does not read.
proof fn lemma_failed_item_does_not_read<T, F: Fn(&JsonValue) -> Result<T, ParseError>>(
    items: Seq<JsonValue>,
    item: F,
)
    requires
        deterministic_reader(item),
    ensures
        forall|i: int, e: ParseError|
            0 <= i < items.len() && #[trigger] item.ensures((&items[i],), Err::<T, ParseError>(e))
                ==> !item_reads(item, items[i]),
{
    assert forall|i: int, e: ParseError|
        0 <= i < items.len() && #[trigger] item.ensures((&items[i],), Err::<T, ParseError>(e))
            implies !item_reads(item, items[i]) by {
        if item_reads(item, items[i]) {
            let x = choose|x: T| item.ensures((&items[i],), Ok::<T, ParseError>(x));
            assert(Ok::<T, ParseError>(x) != Err::<T, ParseError>(e));
        }
    }
}

fn read_items<T, F: Fn(&JsonValue) -> Result<T, ParseError>>(items: &Vec<JsonValue>, item: &F) -> (r:
    Result<Vec<T>, ParseError>)
    requires
        forall|v: &JsonValue| item.requires((v,)),
    ensures
        match r {
            Ok(out) => out@.len() == items@.len() && forall|i: int|
                0 <= i < items@.len() ==> item.ensures(
                    (&items@[i],),
                    Ok::<T, ParseError>(#[trigger] out@[i]),
                ),
            Err(e) => exists|i: int|
                #![trigger items@[i]]
                0 <= i < items@.len() && item.ensures((&items@[i],), Err::<T, ParseError>(e))
                    && forall|j: int| 0 <= j < i ==> item_reads(item, #[trigger] items@[j]),
        },
{
    let mut out: Vec<T> = Vec::new();
    let mut i: usize = 0;
    while i < items.len()
        invariant
            forall|v: &JsonValue| item.requires((v,)),
            i <= items@.len(),
            out@.len() == i,
            forall|j: int|
                0 <= j < i ==> item.ensures((&items@[j],), Ok::<T, ParseError>(#[trigger] out@[j])),
        decreases items@.len() - i,
    {
        match item(&items[i]) {
            Ok(x) => {
                out.push(x);
            },
            Err(e) => {
                assert(item.ensures((&items@[i as int],), Err::<T, ParseError>(e)));
                assert forall|j: int| 0 <= j < i implies item_reads(item, #[trigger] items@[j]) by {
                    assert(item.ensures((&items@[j],), Ok::<T, ParseError>(out@[j])));
                }
                return Err(e);
            },
        }
        i = i + 1;
    }
    Ok(out)
}

/// Reads a value as a list: each item of an array in order, stopping at the
/// first failure; any other value as a one-item list.
pub fn deserialize_vec_with<T, F: Fn(&JsonValue) -> Result<T, ParseError>>(
    value: &JsonValue,
    item: F,
) -> (r: Result<Vec<T>, ParseError>)
    requires
        forall|v: &JsonValue| item.requires((v,)),
    ensures
        match *value {
            JsonValue::Array(items) => match r {
                Ok(out) => out@.len() == items@.len() && forall|i: int|
                    0 <= i < items@.len() ==> item.ensures(
                        (&items@[i],),
                        Ok::<T, ParseError>(#[trigger] out@[i]),
                    ),
                Err(e) => exists|i: int|
                    #![trigger items@[i]]
                    0 <= i < items@.len() && item.ensures((&items@[i],), Err::<T, ParseError>(e))
                        && forall|j: int| 0 <= j < i ==> item_reads(item, #[trigger] items@[j]),
            },
            _ => match r {
                Ok(out) => out@.len() == 1 && item.ensures((value,), Ok::<T, ParseError>(out@[0])),
                Err(e) => item.ensures((value,), Err::<T, ParseError>(e)),
            },
        },
        deterministic_reader(item) ==> (value matches JsonValue::Array(items) ==> (r is Ok
            <==> forall|i: int| 0 <= i < items@.len() ==> item_reads(item, #[trigger] items@[i]))),
{
    match value {
        JsonValue::Array(items) => {
            let r = read_items(items, &item);
            proof {
                if deterministic_reader(item) {
                    lemma_failed_item_does_not_read(items@, item);
                }
                if let Ok(out) = &r {
                    assert forall|i: int| 0 <= i < items@.len() implies item_reads(
                        item,
                        #[trigger] items@[i],
                    ) by {
                        assert(item.ensures((&items@[i],), Ok::<T, ParseError>(out@[i])));
                    }
                }
            }
            r
        },
        _ => {
            match item(value) {
                Ok(x) => {
                    let mut out: Vec<T> = Vec::new();
                    out.push(x);
                    Ok(out)
                },
                Err(e) => Err(e),
            }
        },
    }
}

fn try_read_items<T, F: Fn(&JsonValue) -> Option<T>>(items: &Vec<JsonValue>, item: &F) -> (r: Option<
    Vec<T>,
>)
    requires
        forall|v: &JsonValue| item.requires((v,)),
    ensures
        match r {
            Some(out) => out@.len() == items@.len() && forall|i: int|
                0 <= i < items@.len() ==> item.ensures((&items@[i],), Some::<T>(#[trigger] out@[i])),
            None => exists|i: int|
                #![trigger items@[i]]
                0 <= i < items@.len() && item.ensures((&items@[i],), None::<T>) && forall|j: int|
                    0 <= j < i ==> item_reads_strictly(item, #[trigger] items@[j]),
        },
{
    let mut out: Vec<T> = Vec::new();
    let mut i: usize = 0;
    while i < items.len()
        invariant
            forall|v: &JsonValue| item.requires((v,)),
            i <= items@.len(),
            out@.len() == i,
            forall|j: int|
                0 <= j < i ==> item.ensures((&items@[j],), Some::<T>(#[trigger] out@[j])),
        decreases items@.len() - i,
    {
        match item(&items[i]) {
            Some(x) => {
                out.push(x);
            },
            None => {
                assert(item.ensures((&items@[i as int],), None::<T>));
                assert forall|j: int| 0 <= j < i implies item_reads_strictly(item, #[trigger] items@[j]) by {
                    assert(item.ensures((&items@[j],), Some::<T>(out@[j])));
                }
                return None;
            },
        }
        i = i + 1;
    }
    Some(out)
}

/// Strictly reads a value as a list: an array whose items all read; nothing
/// for any other value or when an item does not read.
pub fn try_deserialize_vec_with<T, F: Fn(&JsonValue) -> Option<T>>(value: &JsonValue, item: F) -> (r:
    Option<Vec<T>>)
    requires
        forall|v: &JsonValue| item.requires((v,)),
    ensures
        match *value {
            JsonValue::Array(items) => match r {
                Some(out) => out@.len() == items@.len() && forall|i: int|
                    0 <= i < items@.len() ==> item.ensures(
                        (&items@[i],),
                        Some::<T>(#[trigger] out@[i]),
                    ),
                None => exists|i: int|
                    #![trigger items@[i]]
                    0 <= i < items@.len() && item.ensures((&items@[i],), None::<T>) && forall|j: int|
                        0 <= j < i ==> item_reads_strictly(item, #[trigger] items@[j]),
            },
            _ => r is None,
        },
{
    match value {
        JsonValue::Array(items) => try_read_items(items, &item),
        _ => None,
    }
}


/// Which entries of an object a map keeps: `kept` lists, in increasing
/// order, the indices of the entries whose key and value both read, and
/// `out` holds what they read as.
pub open spec fn keeps_entries<K, V, FK: Fn(&String) -> Result<K, ParseError>, FV: Fn(
    &JsonValue,
) -> Result<V, ParseError>>(
    entries: Seq<(String, JsonValue)>,
    out: Seq<(K, V)>,
    kept: Seq<int>,
    key: FK,
    val: FV,
) -> bool {
    &&& kept.len() == out.len()
    &&& forall|a: int, b: int| 0 <= a < b < kept.len() ==> kept[a] < kept[b]
    &&& forall|t: int|
        #![trigger kept[t]]
        0 <= t < kept.len() ==> {
            &&& 0 <= kept[t] < entries.len()
            &&& key.ensures((&entries[kept[t]].0,), Ok::<K, ParseError>(out[t].0))
            &&& val.ensures((&entries[kept[t]].1,), Ok::<V, ParseError>(out[t].1))
        }
    &&& forall|j: int|
        #![trigger entries[j]]
        0 <= j < entries.len() && !kept.contains(j) ==> {
            ||| exists|e: ParseError| key.ensures((&entries[j].0,), Err::<K, ParseError>(e))
            ||| exists|e: ParseError| val.ensures((&entries[j].1,), Err::<V, ParseError>(e))
        }
}

/// The map that inserting `out`'s pairs in order gives: a later pair with
/// the same key replaces an earlier one.
pub open spec fn entries_map<K, V>(out: Seq<(K, V)>) -> Map<K, V>
    decreases out.len(),
{
    if out.len() == 0 {
        Map::empty()
    } else {
        entries_map(out.drop_last()).insert(out.last().0, out.last().1)
    }
}

/// The map built from pairs holds exactly their keys, each with the value
/// of the last pair that has it.
pub proof fn lemma_entries_map<K, V>(out: Seq<(K, V)>, k: K)
    ensures
        entries_map(out).contains_key(k) <==> exists|t: int| 0 <= t < out.len() && (#[trigger] out[t]).0 == k,
        entries_map(out).contains_key(k) ==> exists|t: int|
            0 <= t < out.len() && (#[trigger] out[t]).0 == k && (forall|u: int|
                t < u < out.len() ==> (#[trigger] out[u]).0 != k) && entries_map(out)[k] == out[t].1,
    decreases out.len(),
{
    if out.len() > 0 {
        let prev = out.drop_last();
        lemma_entries_map(prev, k);
        let last = out.len() - 1;
        if out.last().0 == k {
            assert(out[last].0 == k);
        } else {
            if entries_map(prev).contains_key(k) {
                let t = choose|t: int|
                    0 <= t < prev.len() && (#[trigger] prev[t]).0 == k && (forall|u: int|
                        t < u < prev.len() ==> (#[trigger] prev[u]).0 != k) && entries_map(prev)[k]
                        == prev[t].1;
                assert(out[t] == prev[t]);
                assert forall|u: int| t < u < out.len() implies (#[trigger] out[u]).0 != k by {
                    if u < last {
                        assert(out[u] == prev[u]);
                    }
                }
            }
            assert forall|t: int| 0 <= t < out.len() && (#[trigger] out[t]).0 == k implies
                entries_map(prev).contains_key(k) by {
                assert(t < last);
                assert(prev[t] == out[t]);
            }
        }
    }
}

/// Whether a key reader gives at most one result for each key.
pub open spec fn deterministic_key_reader<K, F: Fn(&String) -> Result<K, ParseError>>(key: F) -> bool {
    forall|k: String, a: Result<K, ParseError>, b: Result<K, ParseError>|
        #[trigger] key.ensures((&k,), a) && #[trigger] key.ensures((&k,), b) ==> a == b
}

/// Whether reading the key `k` can succeed.
pub open spec fn key_reads<K, F: Fn(&String) -> Result<K, ParseError>>(key: F, k: String) -> bool {
    exists|x: K| key.ensures((&k,), Ok::<K, ParseError>(x))
}

/// Whether the kept entries are exactly those whose key and value both read.
pub open spec fn kept_exactly_reading<K, V, FK: Fn(&String) -> Result<K, ParseError>, FV: Fn(
    &JsonValue,
) -> Result<V, ParseError>>(entries: Seq<(String, JsonValue)>, kept: Seq<int>, key: FK, val: FV) -> bool {
    forall|j: int|
        #![trigger entries[j]]
        0 <= j < entries.len() ==> (kept.contains(j) <==> (key_reads(key, entries[j].0) && item_reads(
            val,
            entries[j].1,
        )))
}

/// With readers that give one result per input, a map keeps exactly the
/// entries whose key and value both read.
pub proof fn lemma_kept_exactly_reading<K, V, FK: Fn(&String) -> Result<K, ParseError>, FV: Fn(
    &JsonValue,
) -> Result<V, ParseError>>(
    entries: Seq<(String, JsonValue)>,
    out: Seq<(K, V)>,
    kept: Seq<int>,
    key: FK,
    val: FV,
)
    requires
        keeps_entries(entries, out, kept, key, val),
        deterministic_key_reader(key),
        deterministic_reader(val),
    ensures
        kept_exactly_reading(entries, kept, key, val),
{
    assert forall|j: int|
        #![trigger entries[j]]
        0 <= j < entries.len() implies (kept.contains(j) <==> (key_reads(key, entries[j].0)
            && item_reads(val, entries[j].1))) by {
        if kept.contains(j) {
            let t = choose|t: int| 0 <= t < kept.len() && kept[t] == j;
            assert(key.ensures((&entries[kept[t]].0,), Ok::<K, ParseError>(out[t].0)));
            assert(val.ensures((&entries[kept[t]].1,), Ok::<V, ParseError>(out[t].1)));
        } else {
            if key_reads(key, entries[j].0) && item_reads(val, entries[j].1) {
                let x = choose|x: K| key.ensures((&entries[j].0,), Ok::<K, ParseError>(x));
                let y = choose|y: V| val.ensures((&entries[j].1,), Ok::<V, ParseError>(y));
                if exists|e: ParseError| key.ensures((&entries[j].0,), Err::<K, ParseError>(e)) {
                    let e = choose|e: ParseError| key.ensures((&entries[j].0,), Err::<K, ParseError>(e));
                    assert(Ok::<K, ParseError>(x) != Err::<K, ParseError>(e));
                } else {
                    let e = choose|e: ParseError| val.ensures((&entries[j].1,), Err::<V, ParseError>(e));
                    assert(Ok::<V, ParseError>(y) != Err::<V, ParseError>(e));
                }
            }
        }
    }
}

fn read_entries<K: Eq + std::hash::Hash, V, FK: Fn(&String) -> Result<K, ParseError>, FV: Fn(&JsonValue) -> Result<
    V,
    ParseError,
>>(entries: &Vec<(String, JsonValue)>, key: &FK, val: &FV) -> (m: HashMap<K, V>)
    requires
        forall|k: &String| key.requires((k,)),
        forall|v: &JsonValue| val.requires((v,)),
    ensures
        exists|out: Seq<(K, V)>, kept: Seq<int>|
            keeps_entries(entries@, out, kept, *key, *val) && (obeys_key_model::<K>()
                ==> m@ == entries_map(out)),
{
    broadcast use vstd::std_specs::hash::group_hash_axioms;
    let mut m: HashMap<K, V> = HashMap::new();
    let ghost mut out: Seq<(K, V)> = Seq::empty();
    let ghost mut kept: Seq<int> = Seq::empty();
    let mut i: usize = 0;
    while i < entries.len()
        invariant
            forall|k: &String| key.requires((k,)),
            forall|v: &JsonValue| val.requires((v,)),
            i <= entries@.len(),
            keeps_entries(entries@.take(i as int), out, kept, *key, *val),
            forall|t: int| 0 <= t < kept.len() ==> #[trigger] kept[t] < i,
            obeys_key_model::<K>() ==> m@ == entries_map(out),
        decreases entries@.len() - i,
    {
        let ghost before = entries@.take(i as int);
        let ghost after = entries@.take(i + 1);
        let ghost prev_kept = kept;
        let ghost prev_out = out;
        let ghost mut key_failed = false;
        let ghost mut val_failed = false;
        assert(forall|j: int| 0 <= j < i ==> #[trigger] after[j] == before[j]);
        let e = &entries[i];
        match key(&e.0) {
            Ok(k) => {
                match val(&e.1) {
                    Ok(v) => {
                        proof {
                            out = out.push((k, v));
                            kept = kept.push(i as int);
                            assert(kept[kept.len() - 1] == i as int);
                            assert(out.drop_last() =~= prev_out);
                        }
                        m.insert(k, v);
                    },
                    Err(err) => {
                        proof {
                            val_failed = true;
                        }
                        assert(val.ensures((&after[i as int].1,), Err::<V, ParseError>(err)));
                    },
                }
            },
            Err(err) => {
                proof {
                    key_failed = true;
                }
                assert(key.ensures((&after[i as int].0,), Err::<K, ParseError>(err)));
            },
        }
        assert(keeps_entries(after, out, kept, *key, *val)) by {
            assert forall|t: int| #![trigger kept[t]] 0 <= t < kept.len() implies {
                &&& 0 <= kept[t] < after.len()
                &&& key.ensures((&after[kept[t]].0,), Ok::<K, ParseError>(out[t].0))
                &&& val.ensures((&after[kept[t]].1,), Ok::<V, ParseError>(out[t].1))
            } by {
                if t < prev_kept.len() {
                    assert(kept[t] == prev_kept[t]);
                    assert(out[t] == prev_out[t]);
                    assert(after[kept[t]] == before[kept[t]]);
                }
            }
            assert forall|j: int|
                #![trigger after[j]]
                0 <= j < after.len() && !kept.contains(j) implies {
                ||| exists|e: ParseError| key.ensures((&after[j].0,), Err::<K, ParseError>(e))
                ||| exists|e: ParseError| val.ensures((&after[j].1,), Err::<V, ParseError>(e))
            } by {
                if j < i {
                    assert(before[j] == after[j]);
                    assert(!prev_kept.contains(j)) by {
                        if prev_kept.contains(j) {
                            let t = choose|t: int| 0 <= t < prev_kept.len() && prev_kept[t] == j;
                            assert(kept[t] == j);
                        }
                    }
                } else {
                    if !key_failed && !val_failed {
                        assert(kept[kept.len() - 1] == j);
                    }
                }
            }
        }
        i = i + 1;
    }
    assert(entries@.take(entries@.len() as int) =~= entries@);
    m
}

/// Reads a value as a map: an object's entries in order, each kept when both
/// its key and its value read and skipped otherwise, a later entry with the
/// same key replacing an earlier one; any other value is a type mismatch
/// (`object` expected, `non-object` found). The map's contents are stated
/// for key types that obey the hash-table key model.
pub fn deserialize_map_with<K: Eq + std::hash::Hash, V, FK: Fn(&String) -> Result<K, ParseError>, FV: Fn(
    &JsonValue,
) -> Result<V, ParseError>>(value: &JsonValue, key: FK, val: FV) -> (r: Result<
    HashMap<K, V>,
    ParseError,
>)
    requires
        forall|k: &String| key.requires((k,)),
        forall|v: &JsonValue| val.requires((v,)),
    ensures
        match *value {
            JsonValue::Object(entries) => r matches Ok(m) && exists|out: Seq<(K, V)>, kept: Seq<int>|
                keeps_entries(entries@, out, kept, key, val) && (obeys_key_model::<K>() ==> m@
                    == entries_map(out)) && (deterministic_key_reader(key) && deterministic_reader(
                    val,
                ) ==> kept_exactly_reading(entries@, kept, key, val)),
            _ => r matches Err(ParseError::DeserializeFailed(
                DeserializeError::TypeMismatch { expected: e, found: f },
            )) && e@ == "object"@ && f@ == "non-object"@,
        },
{
    match value {
        JsonValue::Object(entries) => {
            let m = read_entries(entries, &key, &val);
            proof {
                let (out, kept) = choose|out: Seq<(K, V)>, kept: Seq<int>|
                    keeps_entries(entries@, out, kept, key, val) && (obeys_key_model::<K>() ==> m@
                        == entries_map(out));
                if deterministic_key_reader(key) && deterministic_reader(val) {
                    lemma_kept_exactly_reading(entries@, out, kept, key, val);
                }
            }
            Ok(m)
        },
        _ => Err(ParseError::DeserializeFailed(DeserializeError::type_mismatch("object", "non-object"))),
    }
}

fn try_read_entries<K: Eq + std::hash::Hash, V, FK: Fn(&String) -> Option<K>, FV: Fn(&JsonValue) -> Option<V>>(
    entries: &Vec<(String, JsonValue)>,
    key: &FK,
    val: &FV,
) -> (r: Option<HashMap<K, V>>)
    requires
        forall|k: &String| key.requires((k,)),
        forall|v: &JsonValue| val.requires((v,)),
    ensures
        match r {
            Some(m) => exists|out: Seq<(K, V)>|
                out.len() == entries@.len() && (forall|i: int|
                    #![trigger entries@[i]]
                    0 <= i < entries@.len() ==> key.ensures((&entries@[i].0,), Some::<K>(out[i].0))
                        && val.ensures((&entries@[i].1,), Some::<V>(out[i].1))) && (
                obeys_key_model::<K>() ==> m@ == entries_map(out)),
            None => exists|i: int|
                #![trigger entries@[i]]
                0 <= i < entries@.len() && first_failure_at(entries@, i, *key, *val),
        },
{
    broadcast use vstd::std_specs::hash::group_hash_axioms;
    let mut m: HashMap<K, V> = HashMap::new();
    let ghost mut out: Seq<(K, V)> = Seq::empty();
    let mut i: usize = 0;
    while i < entries.len()
        invariant
            forall|k: &String| key.requires((k,)),
            forall|v: &JsonValue| val.requires((v,)),
            i <= entries@.len(),
            out.len() == i,
            forall|j: int|
                #![trigger entries@[j]]
                0 <= j < i ==> key.ensures((&entries@[j].0,), Some::<K>(out[j].0)) && val.ensures(
                    (&entries@[j].1,),
                    Some::<V>(out[j].1),
                ),
            obeys_key_model::<K>() ==> m@ == entries_map(out),
        decreases entries@.len() - i,
    {
        let e = &entries[i];
        let k = match key(&e.0) {
            Some(k) => k,
            None => {
                assert(key.ensures((&entries@[i as int].0,), None::<K>));
                assert(first_failure_at(entries@, i as int, *key, *val)) by {
                    assert forall|j: int| 0 <= j < i implies entry_reads(#[trigger] entries@[j], *key, *val) by {
                        assert(key.ensures((&entries@[j].0,), Some::<K>(out[j].0)));
                    }
                }
                return None;
            },
        };
        let v = match val(&e.1) {
            Some(v) => v,
            None => {
                assert(key.ensures((&entries@[i as int].0,), Some::<K>(k)));
                assert(val.ensures((&entries@[i as int].1,), None::<V>));
                assert(first_failure_at(entries@, i as int, *key, *val)) by {
                    assert forall|j: int| 0 <= j < i implies entry_reads(#[trigger] entries@[j], *key, *val) by {
                        assert(key.ensures((&entries@[j].0,), Some::<K>(out[j].0)));
                    }
                }
                return None;
            },
        };
        let ghost prev_out = out;
        proof {
            out = out.push((k, v));
            assert(out.drop_last() =~= prev_out);
        }
        m.insert(k, v);
        i = i + 1;
    }
    Some(m)
}

/// Whether an entry's key and value both read strictly.
pub open spec fn entry_reads<K, V, FK: Fn(&String) -> Option<K>, FV: Fn(&JsonValue) -> Option<V>>(
    e: (String, JsonValue),
    key: FK,
    val: FV,
) -> bool {
    (exists|k: K| key.ensures((&e.0,), Some::<K>(k))) && (exists|v: V| val.ensures((&e.1,), Some::<V>(v)))
}

/// Whether entry `i` is the first that does not read strictly: every earlier
/// entry reads, and here the key gives nothing, or the key reads and the
/// value gives nothing.
pub open spec fn first_failure_at<K, V, FK: Fn(&String) -> Option<K>, FV: Fn(&JsonValue) -> Option<V>>(
    entries: Seq<(String, JsonValue)>,
    i: int,
    key: FK,
    val: FV,
) -> bool {
    &&& (forall|j: int| 0 <= j < i ==> entry_reads(#[trigger] entries[j], key, val))
    &&& (key.ensures((&entries[i].0,), None::<K>) || (exists|k: K| key.ensures((&entries[i].0,), Some::<K>(k)))
        && val.ensures((&entries[i].1,), None::<V>))
}

/// Strictly reads a value as a map: an object whose keys and values all
/// read, inserted in order; nothing for any other value or when an entry
/// does not read. The map's contents are stated for key types that obey the
/// hash-table key model.
pub fn try_deserialize_map_with<K: Eq + std::hash::Hash, V, FK: Fn(&String) -> Option<K>, FV: Fn(&JsonValue) -> Option<
    V,
>>(value: &JsonValue, key: FK, val: FV) -> (r: Option<HashMap<K, V>>)
    requires
        forall|k: &String| key.requires((k,)),
        forall|v: &JsonValue| val.requires((v,)),
    ensures
        match *value {
            JsonValue::Object(entries) => match r {
                Some(m) => exists|out: Seq<(K, V)>|
                    out.len() == entries@.len() && (forall|i: int|
                        #![trigger entries@[i]]
                        0 <= i < entries@.len() ==> key.ensures((&entries@[i].0,), Some::<K>(out[i].0))
                            && val.ensures((&entries@[i].1,), Some::<V>(out[i].1))) && (
                    obeys_key_model::<K>() ==> m@ == entries_map(out)),
                None => exists|i: int|
                    #![trigger entries@[i]]
                    0 <= i < entries@.len() && first_failure_at(entries@, i, key, val),
            },
            _ => r is None,
        },
{
    match value {
        JsonValue::Object(entries) => try_read_entries(entries, &key, &val),
        _ => None,
    }
}

} // verus!
