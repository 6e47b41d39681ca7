//! Lists of pairs whose keys differ, seen as maps.
use vstd::prelude::*;

verus! {

/// The keys differ.
pub open spec fn unique<K, V>(s: Seq<(K, V)>) -> bool {
    forall|i: int, j: int| 0 <= i < j < s.len() ==> (#[trigger] s[i]).0 != (#[trigger] s[j]).0
}

pub open spec fn has_key<K, V>(s: Seq<(K, V)>, k: K) -> bool {
    exists|i: int| 0 <= i < s.len() && (#[trigger] s[i]).0 == k
}

pub open spec fn key_index<K, V>(s: Seq<(K, V)>, k: K) -> int {
    choose|i: int| 0 <= i < s.len() && (#[trigger] s[i]).0 == k
}

/// The map from the keys to the values.
pub open spec fn assoc<K, V>(s: Seq<(K, V)>) -> Map<K, V> {
    Map::new(|k: K| has_key(s, k), |k: K| s[key_index(s, k)].1)
}

/// Each pair is in the map.
pub proof fn lemma_entry<K, V>(s: Seq<(K, V)>, i: int)
    requires
        unique(s),
        0 <= i < s.len(),
    ensures
        assoc(s).dom().contains(s[i].0),
        assoc(s)[s[i].0] == s[i].1,
{
    assert(has_key(s, s[i].0));
    let j = key_index(s, s[i].0);
    assert(s[j].0 == s[i].0);
    if i < j {
        assert(s[i].0 != s[j].0);
    } else if j < i {
        assert(s[j].0 != s[i].0);
    }
}

/// Each key of the map is in a pair.
pub proof fn lemma_key<K, V>(s: Seq<(K, V)>, k: K) -> (i: int)
    requires
        assoc(s).dom().contains(k),
    ensures
        0 <= i < s.len(),
        s[i].0 == k,
        assoc(s)[k] == s[i].1,
{
    key_index(s, k)
}

/// A new value in the place of an old one.
pub proof fn lemma_update<K, V>(s: Seq<(K, V)>, i: int, v: V)
    requires
        unique(s),
        0 <= i < s.len(),
    ensures
        unique(s.update(i, (s[i].0, v))),
        assoc(s.update(i, (s[i].0, v))) == assoc(s).insert(s[i].0, v),
{
    let t = s.update(i, (s[i].0, v));
    assert forall|a: int, b: int| 0 <= a < b < t.len() implies (#[trigger] t[a]).0 != (
    #[trigger] t[b]).0 by {
        assert(s[a].0 != s[b].0);
    }
    assert forall|k: K| #[trigger] assoc(t).dom().contains(k) <==> assoc(s).insert(
        s[i].0,
        v,
    ).dom().contains(k) by {
        if assoc(t).dom().contains(k) {
            let a = lemma_key(t, k);
            assert(s[a].0 == k);
            lemma_entry(s, a);
        }
        if assoc(s).dom().contains(k) {
            let a = lemma_key(s, k);
            assert(t[a].0 == k);
            lemma_entry(t, a);
        }
        lemma_entry(t, i);
    }
    assert forall|k: K| #[trigger] assoc(t).dom().contains(k) implies assoc(t)[k] == assoc(s).insert(
        s[i].0,
        v,
    )[k] by {
        let a = lemma_key(t, k);
        lemma_entry(t, i);
        if k != s[i].0 {
            assert(s[a] == t[a]);
            lemma_entry(s, a);
        } else {
            lemma_entry(t, a);
        }
    }
    assert(assoc(t) =~= assoc(s).insert(s[i].0, v));
}

/// A new pair at place `i`.
pub proof fn lemma_insert<K, V>(s: Seq<(K, V)>, i: int, k: K, v: V)
    requires
        unique(s),
        0 <= i <= s.len(),
        !assoc(s).dom().contains(k),
    ensures
        unique(s.insert(i, (k, v))),
        assoc(s.insert(i, (k, v))) == assoc(s).insert(k, v),
{
    let t = s.insert(i, (k, v));
    assert forall|a: int, b: int| 0 <= a < b < t.len() implies (#[trigger] t[a]).0 != (
    #[trigger] t[b]).0 by {
        let x = if a < i {
            a
        } else {
            a - 1
        };
        let y = if b < i {
            b
        } else {
            b - 1
        };
        if a == i {
            assert(t[b] == s[y]);
            lemma_entry(s, y);
        } else if b == i {
            assert(t[a] == s[x]);
            lemma_entry(s, x);
        } else {
            assert(t[a] == s[x] && t[b] == s[y]);
        }
    }
    assert forall|q: K| #[trigger] assoc(t).dom().contains(q) <==> assoc(s).insert(
        k,
        v,
    ).dom().contains(q) by {
        if assoc(t).dom().contains(q) {
            let a = lemma_key(t, q);
            if a != i {
                let x = if a < i {
                    a
                } else {
                    a - 1
                };
                assert(t[a] == s[x]);
                lemma_entry(s, x);
            }
        }
        if assoc(s).dom().contains(q) {
            let a = lemma_key(s, q);
            let x = if a < i {
                a
            } else {
                a + 1
            };
            assert(t[x] == s[a]);
            lemma_entry(t, x);
        }
        lemma_entry(t, i);
    }
    assert forall|q: K| #[trigger] assoc(t).dom().contains(q) implies assoc(t)[q] == assoc(s).insert(
        k,
        v,
    )[q] by {
        let a = lemma_key(t, q);
        if a != i {
            let x = if a < i {
                a
            } else {
                a - 1
            };
            assert(t[a] == s[x]);
            lemma_entry(s, x);
        }
    }
    assert(assoc(t) =~= assoc(s).insert(k, v));
}

/// A new pair at the end.
pub proof fn lemma_push<K, V>(s: Seq<(K, V)>, k: K, v: V)
    requires
        unique(s),
        !assoc(s).dom().contains(k),
    ensures
        unique(s.push((k, v))),
        assoc(s.push((k, v))) == assoc(s).insert(k, v),
{
    lemma_insert(s, s.len() as int, k, v);
    assert(s.insert(s.len() as int, (k, v)) =~= s.push((k, v)));
}

/// A pair taken out.
pub proof fn lemma_remove<K, V>(s: Seq<(K, V)>, i: int)
    requires
        unique(s),
        0 <= i < s.len(),
    ensures
        unique(s.remove(i)),
        assoc(s.remove(i)) == assoc(s).remove(s[i].0),
{
    let t = s.remove(i);
    let k = s[i].0;
    assert forall|a: int, b: int| 0 <= a < b < t.len() implies (#[trigger] t[a]).0 != (
    #[trigger] t[b]).0 by {
        let x = if a < i {
            a
        } else {
            a + 1
        };
        let y = if b < i {
            b
        } else {
            b + 1
        };
        assert(t[a] == s[x] && t[b] == s[y]);
    }
    assert forall|q: K| #[trigger] assoc(t).dom().contains(q) <==> assoc(s).remove(
        k,
    ).dom().contains(q) by {
        if assoc(t).dom().contains(q) {
            let a = lemma_key(t, q);
            let x = if a < i {
                a
            } else {
                a + 1
            };
            assert(t[a] == s[x]);
            lemma_entry(s, x);
            if x < i {
                assert(s[x].0 != s[i].0);
            } else {
                assert(s[i].0 != s[x].0);
            }
        }
        if assoc(s).dom().contains(q) && q != k {
            let a = lemma_key(s, q);
            let x = if a < i {
                a
            } else {
                a - 1
            };
            assert(t[x] == s[a]);
            lemma_entry(t, x);
        }
    }
    assert forall|q: K| #[trigger] assoc(t).dom().contains(q) implies assoc(t)[q] == assoc(s).remove(
        k,
    )[q] by {
        let a = lemma_key(t, q);
        let x = if a < i {
            a
        } else {
            a + 1
        };
        assert(t[a] == s[x]);
        lemma_entry(s, x);
    }
    assert(assoc(t) =~= assoc(s).remove(k));
}

} // verus!
