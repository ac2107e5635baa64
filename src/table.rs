//! Keyed tables kept as vectors of entries with unique keys, and their view as maps.
use vstd::prelude::*;

verus! {

/// No two entries of the table share a key.
pub open spec fn keys_unique<K, V>(t: Seq<(K, V)>) -> bool {
    forall|i: int, j: int|
        0 <= i < t.len() && 0 <= j < t.len() && i != j ==> #[trigger] t[i].0 != #[trigger] t[j].0
}

/// Some entry of the table has key `k`.
pub open spec fn has_key<K, V>(t: Seq<(K, V)>, k: K) -> bool {
    exists|i: int| 0 <= i < t.len() && #[trigger] t[i].0 == k
}

/// The map that a table stands for: each key to the value of its entry.
pub open spec fn table_map<K, V>(t: Seq<(K, V)>) -> Map<K, V>
    decreases t.len(),
{
    if t.len() == 0 {
        Map::empty()
    } else {
        table_map(t.drop_last()).insert(t.last().0, t.last().1)
    }
}

/// A table without the key has a map without it.
pub proof fn lemma_table_absent<K, V>(t: Seq<(K, V)>, k: K)
    requires
        !has_key(t, k),
    ensures
        !table_map(t).contains_key(k),
    decreases t.len(),
{
    if t.len() > 0 {
        let s = t.drop_last();
        assert forall|i: int| 0 <= i < s.len() implies s[i].0 != k by {
            assert(t[i].0 == s[i].0);
        }
        lemma_table_absent(s, k);
        assert(t[t.len() - 1].0 != k);
    }
}

/// Each entry of a table with unique keys is found in its map.
pub proof fn lemma_table_index<K, V>(t: Seq<(K, V)>, i: int)
    requires
        keys_unique(t),
        0 <= i < t.len(),
    ensures
        table_map(t).contains_key(t[i].0),
        table_map(t)[t[i].0] == t[i].1,
    decreases t.len(),
{
    if i < t.len() - 1 {
        let s = t.drop_last();
        assert(keys_unique(s)) by {
            assert forall|a: int, b: int|
                0 <= a < s.len() && 0 <= b < s.len() && a != b implies s[a].0 != s[b].0 by {
                assert(s[a] == t[a] && s[b] == t[b]);
            }
        }
        lemma_table_index(s, i);
        assert(s[i] == t[i]);
        assert(t[t.len() - 1].0 != t[i].0);
    }
}

/// A key is in the map of a table exactly when some entry has it.
pub proof fn lemma_table_dom<K, V>(t: Seq<(K, V)>, k: K)
    requires
        keys_unique(t),
    ensures
        table_map(t).contains_key(k) == has_key(t, k),
{
    if has_key(t, k) {
        let i = choose|i: int| 0 <= i < t.len() && #[trigger] t[i].0 == k;
        lemma_table_index(t, i);
    } else {
        lemma_table_absent(t, k);
    }
}

/// Appending an entry under a new key adds that key to the map.
pub proof fn lemma_table_push<K, V>(t: Seq<(K, V)>, e: (K, V))
    requires
        keys_unique(t),
        !has_key(t, e.0),
    ensures
        keys_unique(t.push(e)),
        table_map(t.push(e)) == table_map(t).insert(e.0, e.1),
{
    let u = t.push(e);
    assert(u.drop_last() =~= t);
    assert forall|a: int, b: int|
        0 <= a < u.len() && 0 <= b < u.len() && a != b implies u[a].0 != u[b].0 by {
        if a < t.len() && b < t.len() {
            assert(u[a] == t[a] && u[b] == t[b]);
        } else if a < t.len() {
            assert(u[a] == t[a]);
        } else {
            assert(u[b] == t[b]);
        }
    }
}

/// Removing the entry at `i` removes its key from the map.
pub proof fn lemma_table_remove<K, V>(t: Seq<(K, V)>, i: int)
    requires
        keys_unique(t),
        0 <= i < t.len(),
    ensures
        keys_unique(t.remove(i)),
        table_map(t.remove(i)) == table_map(t).remove(t[i].0),
    decreases t.len(),
{
    let u = t.remove(i);
    let s = t.drop_last();
    let k = t[i].0;
    assert(keys_unique(s)) by {
        assert forall|a: int, b: int|
            0 <= a < s.len() && 0 <= b < s.len() && a != b implies s[a].0 != s[b].0 by {
            assert(s[a] == t[a] && s[b] == t[b]);
        }
    }
    assert(keys_unique(u)) by {
        assert forall|a: int, b: int|
            0 <= a < u.len() && 0 <= b < u.len() && a != b implies u[a].0 != u[b].0 by {
            let ta = if a < i { a } else { a + 1 };
            let tb = if b < i { b } else { b + 1 };
            assert(u[a] == t[ta] && u[b] == t[tb]);
        }
    }
    if i == t.len() - 1 {
        assert(u =~= s);
        assert forall|j: int| 0 <= j < s.len() implies s[j].0 != k by {
            assert(s[j] == t[j]);
        }
        lemma_table_absent(s, k);
        assert(table_map(u) =~= table_map(t).remove(k));
    } else {
        let last = t.last();
        lemma_table_remove(s, i);
        assert(s[i] == t[i]);
        assert(u =~= s.remove(i).push(last));
        assert(u.drop_last() =~= s.remove(i));
        assert(last.0 != k);
        assert(table_map(u) =~= table_map(t).remove(k));
    }
}

/// Changing the value of the entry at `i` changes the value of its key in the map.
pub proof fn lemma_table_update<K, V>(t: Seq<(K, V)>, i: int, v: V)
    requires
        keys_unique(t),
        0 <= i < t.len(),
    ensures
        keys_unique(t.update(i, (t[i].0, v))),
        table_map(t.update(i, (t[i].0, v))) == table_map(t).insert(t[i].0, v),
    decreases t.len(),
{
    let k = t[i].0;
    let u = t.update(i, (k, v));
    let s = t.drop_last();
    assert(keys_unique(u)) by {
        assert forall|a: int, b: int|
            0 <= a < u.len() && 0 <= b < u.len() && a != b implies u[a].0 != u[b].0 by {
            assert(u[a].0 == t[a].0 && u[b].0 == t[b].0);
        }
    }
    if i == t.len() - 1 {
        assert(u.drop_last() =~= s);
        assert(table_map(u) =~= table_map(t).insert(k, v));
    } else {
        assert(keys_unique(s)) by {
            assert forall|a: int, b: int|
                0 <= a < s.len() && 0 <= b < s.len() && a != b implies s[a].0 != s[b].0 by {
                assert(s[a] == t[a] && s[b] == t[b]);
            }
        }
        lemma_table_update(s, i, v);
        assert(s[i] == t[i]);
        assert(u.drop_last() =~= s.update(i, (k, v)));
        assert(t.last().0 != k);
        assert(u.last() == t.last());
        assert(table_map(u) =~= table_map(t).insert(k, v));
    }
}

} // verus!
