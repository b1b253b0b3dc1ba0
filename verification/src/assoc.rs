//! Association lists: sequences of (key, value) pairs read as finite maps.

use vstd::prelude::*;

verus! {

/// No key occurs twice.
pub open spec fn keys_distinct<V>(s: Seq<(Seq<char>, V)>) -> bool {
    forall|i: int, j: int|
        0 <= i < s.len() && 0 <= j < s.len() && i != j ==> #[trigger] s[i].0 != #[trigger] s[j].0
}

/// Some pair has key `k`.
pub open spec fn has_key<V>(s: Seq<(Seq<char>, V)>, k: Seq<char>) -> bool {
    exists|i: int| 0 <= i < s.len() && #[trigger] s[i].0 == k
}

/// The value paired with `k`, if any pair has key `k`.
pub open spec fn assoc_get<V>(s: Seq<(Seq<char>, V)>, k: Seq<char>) -> Option<V> {
    if has_key(s, k) {
        Some(s[choose|i: int| 0 <= i < s.len() && #[trigger] s[i].0 == k].1)
    } else {
        None
    }
}

/// The keys of the pairs, in order.
pub open spec fn assoc_keys<V>(s: Seq<(Seq<char>, V)>) -> Seq<Seq<char>> {
    s.map_values(|p: (Seq<char>, V)| p.0)
}

/// The values of the pairs, in order.
pub open spec fn assoc_values<V>(s: Seq<(Seq<char>, V)>) -> Seq<V> {
    s.map_values(|p: (Seq<char>, V)| p.1)
}

/// In a list with distinct keys, the pair at `i` gives the value of its key.
pub proof fn lemma_assoc_get_at<V>(s: Seq<(Seq<char>, V)>, i: int)
    requires
        keys_distinct(s),
        0 <= i < s.len(),
    ensures
        assoc_get(s, s[i].0) == Some(s[i].1),
{
    let k = s[i].0;
    assert(has_key(s, k));
    let j = choose|j: int| 0 <= j < s.len() && #[trigger] s[j].0 == k;
    assert(s[j].0 == s[i].0);
}

/// Appending a pair whose key is new keeps keys distinct and adds exactly that binding.
pub proof fn lemma_assoc_push<V>(s: Seq<(Seq<char>, V)>, k: Seq<char>, v: V)
    requires
        keys_distinct(s),
        !has_key(s, k),
    ensures
        keys_distinct(s.push((k, v))),
        forall|k2: Seq<char>| #[trigger] assoc_get(s.push((k, v)), k2) == if k2 == k {
            Some(v)
        } else {
            assoc_get(s, k2)
        },
{
    let t = s.push((k, v));
    assert forall|i: int, j: int|
        0 <= i < t.len() && 0 <= j < t.len() && i != j implies #[trigger] t[i].0 != #[trigger] t[j].0 by {
        if i < s.len() && j < s.len() {
            assert(t[i] == s[i] && t[j] == s[j]);
        } else if i < s.len() {
            assert(t[i] == s[i]);
            if s[i].0 == k {
                assert(has_key(s, k));
            }
        } else if j < s.len() {
            assert(t[j] == s[j]);
            if s[j].0 == k {
                assert(has_key(s, k));
            }
        }
    }
    assert forall|k2: Seq<char>| #[trigger] assoc_get(t, k2) == if k2 == k {
        Some(v)
    } else {
        assoc_get(s, k2)
    } by {
        if k2 == k {
            lemma_assoc_get_at(t, s.len() as int);
        } else {
            if has_key(s, k2) {
                let i = choose|i: int| 0 <= i < s.len() && #[trigger] s[i].0 == k2;
                assert(t[i] == s[i]);
                lemma_assoc_get_at(t, i);
                lemma_assoc_get_at(s, i);
            } else {
                if has_key(t, k2) {
                    let i = choose|i: int| 0 <= i < t.len() && #[trigger] t[i].0 == k2;
                    if i < s.len() {
                        assert(t[i] == s[i]);
                    }
                }
            }
        }
    }
}

/// Replacing the value at `i` keeps keys distinct and rebinds exactly that key.
pub proof fn lemma_assoc_update<V>(s: Seq<(Seq<char>, V)>, i: int, v: V)
    requires
        keys_distinct(s),
        0 <= i < s.len(),
    ensures
        keys_distinct(s.update(i, (s[i].0, v))),
        forall|k2: Seq<char>| #[trigger] assoc_get(s.update(i, (s[i].0, v)), k2) == if k2 == s[i].0 {
            Some(v)
        } else {
            assoc_get(s, k2)
        },
{
    let k = s[i].0;
    let t = s.update(i, (k, v));
    assert forall|a: int, b: int|
        0 <= a < t.len() && 0 <= b < t.len() && a != b implies #[trigger] t[a].0 != #[trigger] t[b].0 by {
        assert(t[a].0 == s[a].0 && t[b].0 == s[b].0);
    }
    assert forall|k2: Seq<char>| #[trigger] assoc_get(t, k2) == if k2 == k {
        Some(v)
    } else {
        assoc_get(s, k2)
    } by {
        if k2 == k {
            lemma_assoc_get_at(t, i);
        } else {
            if has_key(s, k2) {
                let j = choose|j: int| 0 <= j < s.len() && #[trigger] s[j].0 == k2;
                assert(t[j] == s[j]);
                lemma_assoc_get_at(t, j);
                lemma_assoc_get_at(s, j);
            } else {
                if has_key(t, k2) {
                    let j = choose|j: int| 0 <= j < t.len() && #[trigger] t[j].0 == k2;
                    assert(t[j].0 == s[j].0);
                }
            }
        }
    }
}

/// The list with `k` bound to `v`: the pair for `k` gets the new value in
/// place, or a new pair is appended when `k` is new.
pub open spec fn assoc_set<V>(s: Seq<(Seq<char>, V)>, k: Seq<char>, v: V) -> Seq<(Seq<char>, V)> {
    if has_key(s, k) {
        s.update(choose|i: int| 0 <= i < s.len() && #[trigger] s[i].0 == k, (k, v))
    } else {
        s.push((k, v))
    }
}

/// Binding a key keeps keys distinct, gives the key its new value, leaves
/// every other key alone, and keeps the order of the keys (a new key comes last).
pub proof fn lemma_assoc_set<V>(s: Seq<(Seq<char>, V)>, k: Seq<char>, v: V)
    requires
        keys_distinct(s),
    ensures
        keys_distinct(assoc_set(s, k, v)),
        forall|k2: Seq<char>| #[trigger] assoc_get(assoc_set(s, k, v), k2) == if k2 == k {
            Some(v)
        } else {
            assoc_get(s, k2)
        },
        assoc_keys(assoc_set(s, k, v)) == if has_key(s, k) {
            assoc_keys(s)
        } else {
            assoc_keys(s).push(k)
        },
{
    if has_key(s, k) {
        let i = choose|i: int| 0 <= i < s.len() && #[trigger] s[i].0 == k;
        lemma_assoc_update(s, i, v);
        assert(assoc_keys(s.update(i, (k, v))) =~= assoc_keys(s));
    } else {
        lemma_assoc_push(s, k, v);
        assert(assoc_keys(s.push((k, v))) =~= assoc_keys(s).push(k));
    }
}

/// Removing the pair at `i` keeps keys distinct, unbinds its key, and leaves
/// every other key alone.
pub proof fn lemma_assoc_remove<V>(s: Seq<(Seq<char>, V)>, i: int)
    requires
        keys_distinct(s),
        0 <= i < s.len(),
    ensures
        keys_distinct(s.remove(i)),
        forall|k: Seq<char>| #[trigger] assoc_get(s.remove(i), k) == if k == s[i].0 {
            None
        } else {
            assoc_get(s, k)
        },
{
    let t = s.remove(i);
    assert forall|a: int, b: int|
        0 <= a < t.len() && 0 <= b < t.len() && a != b implies #[trigger] t[a].0 != #[trigger] t[b].0 by {
        let a2 = if a < i { a } else { a + 1 };
        let b2 = if b < i { b } else { b + 1 };
        assert(t[a] == s[a2] && t[b] == s[b2]);
    }
    assert forall|k: Seq<char>| #[trigger] assoc_get(t, k) == if k == s[i].0 {
        None
    } else {
        assoc_get(s, k)
    } by {
        if has_key(t, k) {
            let a = choose|a: int| 0 <= a < t.len() && #[trigger] t[a].0 == k;
            let a2 = if a < i { a } else { a + 1 };
            assert(t[a] == s[a2]);
            lemma_assoc_get_at(t, a);
            lemma_assoc_get_at(s, a2);
        } else if k != s[i].0 && has_key(s, k) {
            let a2 = choose|a2: int| 0 <= a2 < s.len() && #[trigger] s[a2].0 == k;
            let a = if a2 < i { a2 } else { a2 - 1 };
            assert(t[a] == s[a2]);
        }
    }
}

/// Two lists with distinct keys that give every key the same value hold the
/// same values, each as often.
pub proof fn lemma_same_bindings_same_values<V>(p: Seq<(Seq<char>, V)>, q: Seq<(Seq<char>, V)>)
    requires
        keys_distinct(p),
        keys_distinct(q),
        forall|k: Seq<char>| #[trigger] assoc_get(p, k) == assoc_get(q, k),
    ensures
        assoc_values(p).to_multiset() == assoc_values(q).to_multiset(),
        p.len() == q.len(),
    decreases p.len(),
{
    broadcast use vstd::seq_lib::group_to_multiset_ensures;
    if p.len() == 0 {
        if q.len() > 0 {
            lemma_assoc_get_at(q, 0);
            assert(assoc_get(p, q[0].0) is None);
        }
        assert(assoc_values(p) =~= Seq::<V>::empty());
        assert(assoc_values(q) =~= Seq::<V>::empty());
    } else {
        let last = p.len() - 1;
        let k = p[last].0;
        let v = p[last].1;
        lemma_assoc_get_at(p, last);
        assert(assoc_get(q, k) == Some(v));
        let j = choose|j: int| 0 <= j < q.len() && #[trigger] q[j].0 == k;
        lemma_assoc_get_at(q, j);
        let p2 = p.remove(last);
        let q2 = q.remove(j);
        lemma_assoc_remove(p, last);
        lemma_assoc_remove(q, j);
        assert forall|k2: Seq<char>| #[trigger] assoc_get(p2, k2) == assoc_get(q2, k2) by {
            assert(assoc_get(p, k2) == assoc_get(q, k2));
        }
        lemma_same_bindings_same_values(p2, q2);
        assert(assoc_values(p) =~= assoc_values(p2).push(v));
        assert(assoc_values(q2) =~= assoc_values(q).remove(j));
        assert(assoc_values(q)[j] == v);
        assert(assoc_values(q).to_multiset() =~= assoc_values(q2).to_multiset().insert(v)) by {
            broadcast use vstd::multiset::group_multiset_axioms;
            assert(assoc_values(q).to_multiset().count(v) > 0);
        }
    }
}

} // verus!
