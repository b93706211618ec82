//! Association lists: a sequence of key/value pairs read as a map, with the
//! facts that the map operations of the library rest on.
use vstd::prelude::*;

verus! {

/// No key occurs twice.
pub open spec fn keys_distinct<K, V>(es: Seq<(K, V)>) -> bool {
    forall|i: int, j: int|
        0 <= i < es.len() && 0 <= j < es.len() && i != j ==> #[trigger] es[i].0 != #[trigger] es[j].0
}

/// The map that the pairs denote; a later pair wins over an earlier one with
/// the same key.
pub open spec fn assoc_map<K, V>(es: Seq<(K, V)>) -> Map<K, V>
    decreases es.len(),
{
    if es.len() == 0 {
        Map::empty()
    } else {
        assoc_map(es.drop_last()).insert(es.last().0, es.last().1)
    }
}

/// A key is in the map exactly when some pair carries it.
pub proof fn lemma_assoc_map_dom<K, V>(es: Seq<(K, V)>, k: K)
    ensures
        assoc_map(es).contains_key(k) <==> exists|i: int| 0 <= i < es.len() && #[trigger] es[i].0 == k,
    decreases es.len(),
{
    if es.len() > 0 {
        let t = es.drop_last();
        lemma_assoc_map_dom(t, k);
        if assoc_map(es).contains_key(k) {
            if es.last().0 != k {
                let i = choose|i: int| 0 <= i < t.len() && #[trigger] t[i].0 == k;
                assert(es[i].0 == k);
            } else {
                assert(es[es.len() - 1].0 == k);
            }
        }
        if exists|i: int| 0 <= i < es.len() && #[trigger] es[i].0 == k {
            let i = choose|i: int| 0 <= i < es.len() && #[trigger] es[i].0 == k;
            if i < es.len() - 1 {
                assert(t[i].0 == k);
            }
        }
    }
}

/// With distinct keys, each pair's key maps to that pair's value.
pub proof fn lemma_assoc_map_index<K, V>(es: Seq<(K, V)>, i: int)
    requires
        keys_distinct(es),
        0 <= i < es.len(),
    ensures
        assoc_map(es).contains_key(es[i].0),
        assoc_map(es)[es[i].0] == es[i].1,
    decreases es.len(),
{
    if i < es.len() - 1 {
        let t = es.drop_last();
        assert(keys_distinct(t)) by {
            assert forall|a: int, b: int|
                0 <= a < t.len() && 0 <= b < t.len() && a != b implies #[trigger] t[a].0
                != #[trigger] t[b].0 by {
                assert(t[a] == es[a] && t[b] == es[b]);
            }
        }
        lemma_assoc_map_index(t, i);
        assert(t[i] == es[i]);
        assert(es[i].0 != es[es.len() - 1].0);
    }
}

/// Replacing the value of the pair at `i` replaces the value of its key.
pub proof fn lemma_assoc_map_update<K, V>(es: Seq<(K, V)>, i: int, v: V)
    requires
        keys_distinct(es),
        0 <= i < es.len(),
    ensures
        keys_distinct(es.update(i, (es[i].0, v))),
        assoc_map(es.update(i, (es[i].0, v))) == assoc_map(es).insert(es[i].0, v),
{
    let k = es[i].0;
    let u = es.update(i, (k, v));
    assert(keys_distinct(u)) by {
        assert forall|a: int, b: int|
            0 <= a < u.len() && 0 <= b < u.len() && a != b implies #[trigger] u[a].0
            != #[trigger] u[b].0 by {
            assert(u[a].0 == es[a].0 && u[b].0 == es[b].0);
        }
    }
    let m = assoc_map(es).insert(k, v);
    assert forall|x: K| #[trigger] assoc_map(u).contains_key(x) <==> m.contains_key(x) by {
        lemma_assoc_map_dom(u, x);
        lemma_assoc_map_dom(es, x);
        if exists|j: int| 0 <= j < es.len() && #[trigger] es[j].0 == x {
            let j = choose|j: int| 0 <= j < es.len() && #[trigger] es[j].0 == x;
            assert(u[j].0 == x);
        }
        if exists|j: int| 0 <= j < u.len() && #[trigger] u[j].0 == x {
            let j = choose|j: int| 0 <= j < u.len() && #[trigger] u[j].0 == x;
            assert(es[j].0 == x);
        }
    }
    assert forall|x: K| #[trigger] assoc_map(u).contains_key(x) implies assoc_map(u)[x] == m[x] by {
        lemma_assoc_map_dom(u, x);
        let j = choose|j: int| 0 <= j < u.len() && #[trigger] u[j].0 == x;
        lemma_assoc_map_index(u, j);
        if j != i {
            lemma_assoc_map_index(es, j);
        }
    }
    assert(assoc_map(u) =~= m);
}

/// Dropping the pair at `i` drops its key from the map.
pub proof fn lemma_assoc_map_remove<K, V>(es: Seq<(K, V)>, i: int)
    requires
        keys_distinct(es),
        0 <= i < es.len(),
    ensures
        keys_distinct(es.remove(i)),
        assoc_map(es.remove(i)) == assoc_map(es).remove(es[i].0),
{
    let k = es[i].0;
    let u = es.remove(i);
    assert(keys_distinct(u)) by {
        assert forall|a: int, b: int|
            0 <= a < u.len() && 0 <= b < u.len() && a != b implies #[trigger] u[a].0
            != #[trigger] u[b].0 by {
            let a2 = if a < i { a } else { a + 1 };
            let b2 = if b < i { b } else { b + 1 };
            assert(u[a] == es[a2] && u[b] == es[b2]);
        }
    }
    let m = assoc_map(es).remove(k);
    assert forall|x: K| #[trigger] assoc_map(u).contains_key(x) <==> m.contains_key(x) by {
        lemma_assoc_map_dom(u, x);
        lemma_assoc_map_dom(es, x);
        if exists|j: int| 0 <= j < es.len() && #[trigger] es[j].0 == x {
            let j = choose|j: int| 0 <= j < es.len() && #[trigger] es[j].0 == x;
            if x != k {
                assert(j != i);
                let j2 = if j < i { j } else { j - 1 };
                assert(u[j2].0 == x);
            }
        }
        if exists|j: int| 0 <= j < u.len() && #[trigger] u[j].0 == x {
            let j = choose|j: int| 0 <= j < u.len() && #[trigger] u[j].0 == x;
            let j2 = if j < i { j } else { j + 1 };
            assert(es[j2].0 == x);
            assert(j2 != i);
        }
    }
    assert forall|x: K| #[trigger] assoc_map(u).contains_key(x) implies assoc_map(u)[x] == m[x] by {
        lemma_assoc_map_dom(u, x);
        let j = choose|j: int| 0 <= j < u.len() && #[trigger] u[j].0 == x;
        let j2 = if j < i { j } else { j + 1 };
        assert(u[j] == es[j2]);
        lemma_assoc_map_index(u, j);
        lemma_assoc_map_index(es, j2);
    }
    assert(assoc_map(u) =~= m);
}

/// Adding a pair with a new key keeps the keys distinct.
pub proof fn lemma_assoc_push_distinct<K, V>(es: Seq<(K, V)>, k: K, v: V)
    requires
        keys_distinct(es),
        !assoc_map(es).contains_key(k),
    ensures
        keys_distinct(es.push((k, v))),
{
    lemma_assoc_map_dom(es, k);
    let u = es.push((k, v));
    assert forall|a: int, b: int|
        0 <= a < u.len() && 0 <= b < u.len() && a != b implies #[trigger] u[a].0 != #[trigger] u[b].0 by {
        if a < es.len() && b < es.len() {
            assert(u[a] == es[a] && u[b] == es[b]);
        } else if a < es.len() {
            assert(u[a] == es[a]);
        } else {
            assert(u[b] == es[b]);
        }
    }
}

/// With distinct keys, the map has exactly as many keys as there are pairs.
pub proof fn lemma_assoc_map_len<K, V>(es: Seq<(K, V)>)
    requires
        keys_distinct(es),
    ensures
        assoc_map(es).dom().finite(),
        assoc_map(es).dom().len() == es.len(),
    decreases es.len(),
{
    if es.len() == 0 {
        assert(assoc_map(es).dom() =~= Set::<K>::empty());
    } else {
        let t = es.drop_last();
        assert(keys_distinct(t)) by {
            assert forall|a: int, b: int|
                0 <= a < t.len() && 0 <= b < t.len() && a != b implies #[trigger] t[a].0
                != #[trigger] t[b].0 by {
                assert(t[a] == es[a] && t[b] == es[b]);
            }
        }
        lemma_assoc_map_len(t);
        lemma_assoc_map_dom(t, es.last().0);
        if assoc_map(t).contains_key(es.last().0) {
            let i = choose|i: int| 0 <= i < t.len() && #[trigger] t[i].0 == es.last().0;
            assert(es[i].0 == es[es.len() - 1].0);
        }
        assert(assoc_map(es).dom() =~= assoc_map(t).dom().insert(es.last().0));
    }
}

} // verus!
