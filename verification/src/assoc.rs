use vstd::prelude::*;

verus! {

/// The first position at which `key` occurs as a key in an association list.
pub open spec fn assoc_pos<K, V>(entries: Seq<(K, V)>, key: K) -> Option<int>
    decreases entries.len(),
{
    if entries.len() == 0 {
        None
    } else {
        match assoc_pos(entries.drop_last(), key) {
            Some(i) => Some(i),
            None => if entries.last().0 == key {
                Some(entries.len() - 1)
            } else {
                None
            },
        }
    }
}

/// The value bound to `key`: the first binding wins.
pub open spec fn assoc_get<K, V>(entries: Seq<(K, V)>, key: K) -> Option<V> {
    match assoc_pos(entries, key) {
        Some(i) => Some(entries[i].1),
        None => None,
    }
}

/// Binds `key` to `value`: replaces the first binding of `key`, or adds one at the end.
pub open spec fn assoc_insert<K, V>(entries: Seq<(K, V)>, key: K, value: V) -> Seq<(K, V)> {
    match assoc_pos(entries, key) {
        Some(i) => entries.update(i, (key, value)),
        None => entries.push((key, value)),
    }
}

/// What `assoc_pos` means: the first index that holds the key.
pub proof fn lemma_assoc_pos<K, V>(entries: Seq<(K, V)>, key: K)
    ensures
        match assoc_pos(entries, key) {
            Some(i) => 0 <= i < entries.len() && entries[i].0 == key && forall|j: int|
                0 <= j < i ==> #[trigger] entries[j].0 != key,
            None => forall|j: int| 0 <= j < entries.len() ==> #[trigger] entries[j].0 != key,
        },
    decreases entries.len(),
{
    if entries.len() > 0 {
        lemma_assoc_pos(entries.drop_last(), key);
        match assoc_pos(entries.drop_last(), key) {
            Some(i) => {
                assert forall|j: int| 0 <= j < i implies #[trigger] entries[j].0 != key by {
                    assert(entries.drop_last()[j] == entries[j]);
                }
                assert(entries.drop_last()[i] == entries[i]);
            },
            None => {
                assert forall|j: int| 0 <= j < entries.len() - 1 implies #[trigger] entries[j].0 != key by {
                    assert(entries.drop_last()[j] == entries[j]);
                }
            },
        }
    }
}

/// The first index holding the key is determined by the keys alone.
pub proof fn lemma_assoc_pos_unique<K, V>(entries: Seq<(K, V)>, key: K, i: int)
    requires
        0 <= i < entries.len(),
        entries[i].0 == key,
        forall|j: int| 0 <= j < i ==> #[trigger] entries[j].0 != key,
    ensures
        assoc_pos(entries, key) == Some(i),
{
    lemma_assoc_pos(entries, key);
    match assoc_pos(entries, key) {
        Some(p) => {
            if p < i {
                assert(entries[p].0 != key);
            } else if p > i {
                assert(entries[i].0 != key);
            }
        },
        None => {
            assert(entries[i].0 != key);
        },
    }
}

/// No index holds the key.
pub proof fn lemma_assoc_pos_none<K, V>(entries: Seq<(K, V)>, key: K)
    requires
        forall|j: int| 0 <= j < entries.len() ==> #[trigger] entries[j].0 != key,
    ensures
        assoc_pos(entries, key) == None::<int>,
{
    lemma_assoc_pos(entries, key);
    match assoc_pos(entries, key) {
        Some(p) => {
            assert(entries[p].0 != key);
        },
        None => {},
    }
}

/// After binding `key`, looking it up gives the new value; other keys are unaffected.
pub proof fn lemma_assoc_insert_get<K, V>(entries: Seq<(K, V)>, key: K, value: V, other: K)
    ensures
        assoc_get(assoc_insert(entries, key, value), key) == Some(value),
        other != key ==> assoc_get(assoc_insert(entries, key, value), other) == assoc_get(entries, other),
{
    let e2 = assoc_insert(entries, key, value);
    lemma_assoc_pos(entries, key);
    lemma_assoc_pos(entries, other);
    match assoc_pos(entries, key) {
        Some(i) => {
            lemma_assoc_pos_unique(e2, key, i);
            if other != key {
                match assoc_pos(entries, other) {
                    Some(k) => {
                        lemma_assoc_pos_unique(e2, other, k);
                    },
                    None => {
                        lemma_assoc_pos_none(e2, other);
                    },
                }
            }
        },
        None => {
            lemma_assoc_pos_unique(e2, key, entries.len() as int);
            if other != key {
                match assoc_pos(entries, other) {
                    Some(k) => {
                        lemma_assoc_pos_unique(e2, other, k);
                    },
                    None => {
                        lemma_assoc_pos_none(e2, other);
                    },
                }
            }
        },
    }
}

/// Adding a binding at the end only matters for a key that was unbound.
pub proof fn lemma_assoc_get_push<K, V>(entries: Seq<(K, V)>, k: K, v: V, key: K)
    ensures
        assoc_get(entries.push((k, v)), key) == (if assoc_get(entries, key) is Some {
            assoc_get(entries, key)
        } else if k == key {
            Some(v)
        } else {
            None
        }),
{
    let e2 = entries.push((k, v));
    assert(e2.drop_last() =~= entries);
    match assoc_pos(entries, key) {
        Some(i) => {
            lemma_assoc_pos(entries, key);
            assert(e2[i] == entries[i]);
        },
        None => {},
    }
}

/// Two association lists with the same keys at the same places find a key at the same place.
pub proof fn lemma_assoc_pos_same_keys<K, V, W>(a: Seq<(K, V)>, b: Seq<(K, W)>, key: K)
    requires
        a.len() == b.len(),
        forall|i: int| 0 <= i < a.len() ==> #[trigger] a[i].0 == b[i].0,
    ensures
        assoc_pos(a, key) == assoc_pos(b, key),
    decreases a.len(),
{
    if a.len() > 0 {
        assert forall|i: int| 0 <= i < a.len() - 1 implies #[trigger] a.drop_last()[i].0 == b.drop_last()[i].0 by {
            assert(a.drop_last()[i] == a[i]);
            assert(b.drop_last()[i] == b[i]);
        }
        lemma_assoc_pos_same_keys(a.drop_last(), b.drop_last(), key);
        assert(a.last().0 == b.last().0);
    }
}

/// The first entry whose name is `key`.
pub fn find_name<V>(entries: &Vec<(String, V)>, key: &str) -> (r: Option<usize>)
    ensures
        match r {
            Some(i) => i < entries.len() && entries@[i as int].0@ == key@ && forall|j: int|
                0 <= j < i ==> #[trigger] entries@[j].0@ != key@,
            None => forall|j: int| 0 <= j < entries.len() ==> #[trigger] entries@[j].0@ != key@,
        },
{
    let k = key.to_owned();
    let mut i: usize = 0;
    while i < entries.len()
        invariant
            i <= entries.len(),
            k@ == key@,
            forall|j: int| 0 <= j < i ==> #[trigger] entries@[j].0@ != key@,
        decreases entries.len() - i,
    {
        if entries[i].0 == k {
            return Some(i);
        }
        i = i + 1;
    }
    None
}

} // verus!
