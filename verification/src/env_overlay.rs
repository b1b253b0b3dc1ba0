//! An overlay of environment variables over a base environment.
//!
//! Variables set or deleted through the proxy are recorded in the overlay and
//! never written to the base; reads see the overlay first and fall back to the
//! base. The process environment, read by the caller, is the usual base.

use vstd::prelude::*;
use crate::assoc::{assoc_keys, assoc_values, assoc_get, lemma_same_bindings_same_values, has_key, keys_distinct, lemma_assoc_get_at, lemma_assoc_push, lemma_assoc_update};
use crate::error::RuntimeError;
use crate::text::{str_contains_char, str_eq, strings_view};

verus! {

/// The characters of an optional string.
pub open spec fn opt_str_view(o: Option<String>) -> Option<Seq<char>> {
    match o {
        Some(s) => Some(s@),
        None => None,
    }
}

/// A list of string pairs, by their characters.
pub open spec fn pairs_view(v: Seq<(String, String)>) -> Seq<(Seq<char>, Seq<char>)> {
    v.map_values(|p: (String, String)| (p.0@, p.1@))
}

/// A list of overlay entries, by their characters.
pub open spec fn entries_view(v: Seq<(String, Option<String>)>) -> Seq<(Seq<char>, Option<Seq<char>>)> {
    v.map_values(|p: (String, Option<String>)| (p.0@, opt_str_view(p.1)))
}

/// The variables that a list of assignments defines, a later assignment of a
/// name replacing an earlier one.
pub open spec fn assignments_map(v: Seq<(Seq<char>, Seq<char>)>) -> Map<Seq<char>, Seq<char>>
    decreases v.len(),
{
    if v.len() == 0 {
        Map::empty()
    } else {
        assignments_map(v.drop_last()).insert(v.last().0, v.last().1)
    }
}

/// Proxy for environment variable operations (map-like interface).
pub struct EnvProxy {
    base: Vec<(String, String)>,
    overlay: Vec<(String, Option<String>)>,
}

/// The binding that `key` has when the overlay is read before the base:
/// an overlay entry (a value, or a deletion) wins over the base.
pub open spec fn overlay_lookup(
    base: Seq<(Seq<char>, Seq<char>)>,
    overlay: Seq<(Seq<char>, Option<Seq<char>>)>,
    key: Seq<char>,
) -> Option<Seq<char>> {
    match assoc_get(overlay, key) {
        Some(entry) => entry,
        None => assoc_get(base, key),
    }
}

impl EnvProxy {
    /// The base environment, by characters.
    pub closed spec fn base_view(&self) -> Seq<(Seq<char>, Seq<char>)> {
        pairs_view(self.base@)
    }

    /// The overlay entries, by characters: `None` records a deletion.
    pub closed spec fn overlay_view(&self) -> Seq<(Seq<char>, Option<Seq<char>>)> {
        entries_view(self.overlay@)
    }

    /// The effective value of `key`.
    pub open spec fn effective(&self, key: Seq<char>) -> Option<Seq<char>> {
        overlay_lookup(self.base_view(), self.overlay_view(), key)
    }

    /// The effective environment: each variable with its effective value.
    pub open spec fn view(&self) -> Map<Seq<char>, Seq<char>> {
        Map::new(|k: Seq<char>| self.effective(k) is Some, |k: Seq<char>| self.effective(k)->0)
    }

    /// The base environment as a map.
    pub open spec fn base_map(&self) -> Map<Seq<char>, Seq<char>> {
        Map::new(|k: Seq<char>| has_key(self.base_view(), k), |k: Seq<char>| assoc_get(self.base_view(), k)->0)
    }

    /// The overlay as a map from names to their recorded value or deletion.
    pub open spec fn overlay_map(&self) -> Map<Seq<char>, Option<Seq<char>>> {
        Map::new(|k: Seq<char>| has_key(self.overlay_view(), k), |k: Seq<char>| assoc_get(self.overlay_view(), k)->0)
    }

    #[verifier::type_invariant]
    closed spec fn wf(&self) -> bool {
        &&& keys_distinct(self.base_view())
        &&& keys_distinct(self.overlay_view())
    }

    /// `pairs` lists the effective environment: distinct names, each with its value.
    pub open spec fn is_listed_by(&self, pairs: Seq<(Seq<char>, Seq<char>)>) -> bool {
        &&& keys_distinct(pairs)
        &&& forall|k: Seq<char>| #[trigger] assoc_get(pairs, k) == self.view().get(k)
    }
}

/// Index of the first entry with key `key`.
fn find_key<X>(v: &Vec<(String, X)>, key: &str) -> (r: Option<usize>)
    ensures
        r matches Some(i) ==> i < v@.len() && v@[i as int].0@ == key@,
        r is None ==> forall|i: int| 0 <= i < v@.len() ==> #[trigger] v@[i].0@ != key@,
{
    let mut i: usize = 0;
    while i < v.len()
        invariant
            i <= v@.len(),
            forall|j: int| 0 <= j < i ==> #[trigger] v@[j].0@ != key@,
        decreases v@.len() - i,
    {
        if str_eq(v[i].0.as_str(), key) {
            return Some(i);
        }
        i = i + 1;
    }
    None
}

proof fn lemma_base_key(v: Seq<(String, String)>, key: Seq<char>, r: Option<usize>)
    requires
        keys_distinct(pairs_view(v)),
        r matches Some(i) ==> i < v.len() && v[i as int].0@ == key,
        r is None ==> forall|i: int| 0 <= i < v.len() ==> #[trigger] v[i].0@ != key,
    ensures
        r matches Some(i) ==> assoc_get(pairs_view(v), key) == Some(v[i as int].1@),
        r is None ==> assoc_get(pairs_view(v), key) is None,
{
    let pv = pairs_view(v);
    match r {
        Some(i) => {
            lemma_assoc_get_at(pv, i as int);
        },
        None => {
            if has_key(pv, key) {
                let i = choose|i: int| 0 <= i < pv.len() && #[trigger] pv[i].0 == key;
                assert(v[i].0@ != key);
            }
        },
    }
}

proof fn lemma_overlay_key(v: Seq<(String, Option<String>)>, key: Seq<char>, r: Option<usize>)
    requires
        keys_distinct(entries_view(v)),
        r matches Some(i) ==> i < v.len() && v[i as int].0@ == key,
        r is None ==> forall|i: int| 0 <= i < v.len() ==> #[trigger] v[i].0@ != key,
    ensures
        r matches Some(i) ==> assoc_get(entries_view(v), key) == Some(opt_str_view(v[i as int].1)),
        r is None ==> assoc_get(entries_view(v), key) is None,
{
    let pv = entries_view(v);
    match r {
        Some(i) => {
            lemma_assoc_get_at(pv, i as int);
        },
        None => {
            if has_key(pv, key) {
                let i = choose|i: int| 0 <= i < pv.len() && #[trigger] pv[i].0 == key;
                assert(v[i].0@ != key);
            }
        },
    }
}

fn clone_opt_string(o: &Option<String>) -> (r: Option<String>)
    ensures
        opt_str_view(r) == opt_str_view(*o),
{
    match o {
        Some(s) => Some(s.clone()),
        None => None,
    }
}

impl EnvProxy {
    /// Create a proxy over an empty base environment.
    pub fn new() -> (r: Self)
        ensures
            r@ == Map::<Seq<char>, Seq<char>>::empty(),
            r.base_map() == Map::<Seq<char>, Seq<char>>::empty(),
            r.overlay_map() == Map::<Seq<char>, Option<Seq<char>>>::empty(),
    {
        let r = EnvProxy { base: Vec::new(), overlay: Vec::new() };
        assert(r@ =~= Map::<Seq<char>, Seq<char>>::empty());
        assert(r.base_map() =~= Map::<Seq<char>, Seq<char>>::empty());
        assert(r.overlay_map() =~= Map::<Seq<char>, Option<Seq<char>>>::empty());
        r
    }

    /// Look up `key` in the base environment.
    fn base_get(&self, key: &str) -> (r: Option<String>)
        ensures
            opt_str_view(r) == assoc_get(self.base_view(), key@),
    {
        proof {
            use_type_invariant(self);
        }
        let idx = find_key(&self.base, key);
        proof {
            lemma_base_key(self.base@, key@, idx);
        }
        match idx {
            Some(i) => Some(self.base[i].1.clone()),
            None => None,
        }
    }

    /// Get an environment variable value (overlay takes precedence).
    pub fn get(&self, key: &str) -> (r: Option<String>)
        ensures
            opt_str_view(r) == self@.get(key@),
            opt_str_view(r) == self.effective(key@),
    {
        proof {
            use_type_invariant(self);
        }
        let idx = find_key(&self.overlay, key);
        proof {
            lemma_overlay_key(self.overlay@, key@, idx);
        }
        match idx {
            Some(i) => clone_opt_string(&self.overlay[i].1),
            None => self.base_get(key),
        }
    }

    /// Record `entry` for `key` in the overlay, replacing an earlier entry.
    fn record(&mut self, key: &str, entry: Option<String>)
        ensures
            final(self).base_view() == old(self).base_view(),
            forall|k: Seq<char>| #[trigger] assoc_get(final(self).overlay_view(), k) == if k == key@ {
                Some(opt_str_view(entry))
            } else {
                assoc_get(old(self).overlay_view(), k)
            },
    {
        proof {
            use_type_invariant(&*self);
        }
        let ghost ov = self.overlay_view();
        let mut entries: Vec<(String, Option<String>)> = Vec::new();
        std::mem::swap(&mut entries, &mut self.overlay);
        assert(entries_view(entries@) == ov);
        let idx = find_key(&entries, key);
        match idx {
            Some(i) => {
                let ghost e = opt_str_view(entry);
                proof {
                    lemma_assoc_update(ov, i as int, e);
                    assert(entries_view(entries@.update(i as int, (entries@[i as int].0, entry)))
                        =~= ov.update(i as int, (ov[i as int].0, e)));
                }
                let k = entries[i].0.clone();
                entries.set(i, (k, entry));
            },
            None => {
                let ghost e = opt_str_view(entry);
                proof {
                    if has_key(ov, key@) {
                        let j = choose|j: int| 0 <= j < ov.len() && #[trigger] ov[j].0 == key@;
                        assert(entries@[j].0@ != key@);
                    }
                    lemma_assoc_push(ov, key@, e);
                }
                let k: String = key.to_owned();
                proof {
                    assert(entries_view(entries@.push((k, entry))) =~= ov.push((key@, e)));
                }
                entries.push((k, entry));
            },
        }
        self.overlay = entries;
    }
}

/// The message with which setting `key` to `value` is refused, if it is.
pub open spec fn set_refusal(key: Seq<char>, value: Seq<char>) -> Option<Seq<char>> {
    if key.len() == 0 {
        Some("Environment variable key cannot be empty"@)
    } else if key.contains('=') {
        Some("Environment variable key cannot contain '='"@)
    } else if key.contains('\0') {
        Some("Environment variable key cannot contain NUL (\\0)"@)
    } else if value.contains('\0') {
        Some("Environment variable value cannot contain NUL (\\0)"@)
    } else {
        None
    }
}

fn invalid_operation(message: &str) -> (e: RuntimeError)
    ensures
        e matches RuntimeError::InvalidOperation { message: m } && m@ == message@,
{
    RuntimeError::InvalidOperation { message: message.to_owned() }
}

impl EnvProxy {
    /// Set an environment variable in the overlay.
    pub fn set(&mut self, key: &str, value: &str) -> (r: Result<(), RuntimeError>)
        ensures
            match set_refusal(key@, value@) {
                Some(msg) => {
                    &&& r matches Err(RuntimeError::InvalidOperation { message }) && message@ == msg
                    &&& final(self)@ == old(self)@
                    &&& final(self).overlay_map() == old(self).overlay_map()
                },
                None => {
                    &&& r is Ok
                    &&& final(self)@ == old(self)@.insert(key@, value@)
                    &&& final(self).overlay_map() == old(self).overlay_map().insert(key@, Some(value@))
                },
            },
            final(self).base_map() == old(self).base_map(),
    {
        if key.is_empty() {
            return Err(invalid_operation("Environment variable key cannot be empty"));
        }
        if str_contains_char(key, '=') {
            return Err(invalid_operation("Environment variable key cannot contain '='"));
        }
        if str_contains_char(key, '\0') {
            return Err(invalid_operation("Environment variable key cannot contain NUL (\\0)"));
        }
        if str_contains_char(value, '\0') {
            return Err(invalid_operation("Environment variable value cannot contain NUL (\\0)"));
        }
        let ghost before = *self;
        self.record(key, Some(value.to_owned()));
        proof {
            assert(self@ =~= before@.insert(key@, value@)) by {
                assert forall|k: Seq<char>| #[trigger] self.effective(k) == if k == key@ {
                    Some(value@)
                } else {
                    before.effective(k)
                } by {
                    assert(assoc_get(self.overlay_view(), k) == if k == key@ {
                        Some(Some(value@))
                    } else {
                        assoc_get(before.overlay_view(), k)
                    });
                }
            }
            assert(self.overlay_map() =~= before.overlay_map().insert(key@, Some(value@))) by {
                assert forall|k: Seq<char>| #[trigger] has_key(self.overlay_view(), k) == (k == key@ || has_key(before.overlay_view(), k)) by {
                    assert(assoc_get(self.overlay_view(), k) == if k == key@ {
                        Some(Some(value@))
                    } else {
                        assoc_get(before.overlay_view(), k)
                    });
                }
                assert forall|k: Seq<char>| has_key(self.overlay_view(), k) implies #[trigger] assoc_get(self.overlay_view(), k) == if k == key@ {
                    Some(Some(value@))
                } else {
                    assoc_get(before.overlay_view(), k)
                } by {}
            }
            assert(self.base_map() =~= before.base_map());
        }
        Ok(())
    }

    /// Delete an environment variable by recording its deletion in the overlay.
    /// Returns whether the variable existed.
    pub fn delete(&mut self, key: &str) -> (existed: bool)
        ensures
            existed == old(self)@.contains_key(key@),
            final(self)@ == old(self)@.remove(key@),
            final(self).overlay_map() == old(self).overlay_map().insert(key@, None),
            final(self).base_map() == old(self).base_map(),
    {
        let existed = self.get(key).is_some();
        let ghost before = *self;
        self.record(key, None);
        proof {
            assert(self@ =~= before@.remove(key@)) by {
                assert forall|k: Seq<char>| #[trigger] self.effective(k) == if k == key@ {
                    None
                } else {
                    before.effective(k)
                } by {
                    assert(assoc_get(self.overlay_view(), k) == if k == key@ {
                        Some(None::<Seq<char>>)
                    } else {
                        assoc_get(before.overlay_view(), k)
                    });
                }
            }
            assert(self.overlay_map() =~= before.overlay_map().insert(key@, None)) by {
                assert forall|k: Seq<char>| #[trigger] has_key(self.overlay_view(), k) == (k == key@ || has_key(before.overlay_view(), k)) by {
                    assert(assoc_get(self.overlay_view(), k) == if k == key@ {
                        Some(None::<Seq<char>>)
                    } else {
                        assoc_get(before.overlay_view(), k)
                    });
                }
                assert forall|k: Seq<char>| has_key(self.overlay_view(), k) implies #[trigger] assoc_get(self.overlay_view(), k) == if k == key@ {
                    Some(None::<Seq<char>>)
                } else {
                    assoc_get(before.overlay_view(), k)
                } by {}
            }
            assert(self.base_map() =~= before.base_map());
        }
        existed
    }

    /// Check if an environment variable exists.
    pub fn contains(&self, key: &str) -> (b: bool)
        ensures
            b == self@.contains_key(key@),
    {
        self.get(key).is_some()
    }
}

/// `has_key` on a one-longer prefix.
proof fn lemma_has_key_take<V>(s: Seq<(Seq<char>, V)>, i: int, k: Seq<char>)
    requires
        0 <= i < s.len(),
    ensures
        has_key(s.take(i + 1), k) == (has_key(s.take(i), k) || s[i].0 == k),
{
    if has_key(s.take(i + 1), k) {
        let j = choose|j: int| 0 <= j < s.take(i + 1).len() && #[trigger] s.take(i + 1)[j].0 == k;
        if j < i {
            assert(s.take(i)[j] == s[j]);
        }
    }
    if has_key(s.take(i), k) {
        let j = choose|j: int| 0 <= j < s.take(i).len() && #[trigger] s.take(i)[j].0 == k;
        assert(s.take(i + 1)[j] == s[j]);
    }
    if s[i].0 == k {
        assert(s.take(i + 1)[i] == s[i]);
    }
}

impl EnvProxy {
    /// Replace the base environment by the variables that `vars` assigns (a later
    /// assignment of a name wins), keeping the overlay.
    pub fn rebase(&mut self, vars: Vec<(String, String)>)
        ensures
            final(self).base_map() == assignments_map(pairs_view(vars@)),
            final(self).overlay_map() == old(self).overlay_map(),
    {
        proof {
            use_type_invariant(&*self);
        }
        let ghost before = *self;
        let ghost pv = pairs_view(vars@);
        let mut base: Vec<(String, String)> = Vec::new();
        let mut i: usize = 0;
        assert(pairs_view(base@) =~= Seq::<(Seq<char>, Seq<char>)>::empty());
        while i < vars.len()
            invariant
                i <= vars@.len(),
                pv == pairs_view(vars@),
                keys_distinct(pairs_view(base@)),
                forall|k: Seq<char>| #[trigger] assoc_get(pairs_view(base@), k) == assignments_map(pv.take(i as int)).get(k),
            decreases vars@.len() - i,
        {
            let ghost bv = pairs_view(base@);
            let k = vars[i].0.clone();
            let v = vars[i].1.clone();
            proof {
                assert(pv.take(i + 1).drop_last() =~= pv.take(i as int));
                assert(pv.take(i + 1).last() == (k@, v@));
                assert(assignments_map(pv.take(i + 1)) == assignments_map(pv.take(i as int)).insert(k@, v@));
            }
            let idx = find_key(&base, k.as_str());
            match idx {
                Some(j) => {
                    proof {
                        lemma_assoc_update(bv, j as int, v@);
                        assert(pairs_view(base@.update(j as int, (k, v)))
                            =~= bv.update(j as int, (bv[j as int].0, v@)));
                    }
                    base.set(j, (k, v));
                },
                None => {
                    proof {
                        if has_key(bv, k@) {
                            let m = choose|m: int| 0 <= m < bv.len() && #[trigger] bv[m].0 == k@;
                            assert(base@[m].0@ != k@);
                        }
                        lemma_assoc_push(bv, k@, v@);
                        assert(pairs_view(base@.push((k, v))) =~= bv.push((k@, v@)));
                    }
                    base.push((k, v));
                },
            }
            i = i + 1;
        }
        proof {
            assert(pv.take(vars@.len() as int) =~= pv);
        }
        self.base = base;
        proof {
            assert(self.base_map() =~= assignments_map(pv)) by {
                assert forall|k: Seq<char>| #[trigger] assignments_map(pv).dom().contains(k) == has_key(self.base_view(), k) by {
                    assert(assoc_get(self.base_view(), k) == assignments_map(pv).get(k));
                }
                assert forall|k: Seq<char>| #[trigger] assignments_map(pv).dom().contains(k) implies
                    assoc_get(self.base_view(), k)->0 == assignments_map(pv)[k] by {
                    assert(assoc_get(self.base_view(), k) == assignments_map(pv).get(k));
                }
            }
            assert(self.overlay_map() =~= before.overlay_map());
        }
    }

    /// Create a proxy whose base environment is what `vars` assigns (such as
    /// the process environment), with an empty overlay.
    pub fn from_vars(vars: Vec<(String, String)>) -> (r: Self)
        ensures
            r.base_map() == assignments_map(pairs_view(vars@)),
            r.overlay_map() == Map::<Seq<char>, Option<Seq<char>>>::empty(),
            r@ == assignments_map(pairs_view(vars@)),
    {
        let mut r = EnvProxy::new();
        r.rebase(vars);
        proof {
            let m = assignments_map(pairs_view(vars@));
            assert forall|k: Seq<char>| #[trigger] r.effective(k) == m.get(k) by {
                assert(!r.overlay_map().dom().contains(k));
                assert(!has_key(r.overlay_view(), k));
                assert(r.base_map().dom().contains(k) == m.dom().contains(k));
                if m.dom().contains(k) {
                    assert(r.base_map()[k] == m[k]);
                }
            }
            assert(r@ =~= m);
        }
        r
    }

    /// All environment variables as (name, value) pairs, each name once.
    pub fn to_list(&self) -> (r: Vec<(String, String)>)
        ensures
            self.is_listed_by(pairs_view(r@)),
    {
        proof {
            use_type_invariant(self);
        }
        let ghost bv = self.base_view();
        let ghost ov = self.overlay_view();
        let mut r: Vec<(String, String)> = Vec::new();
        assert(pairs_view(r@) =~= Seq::<(Seq<char>, Seq<char>)>::empty());
        let mut i: usize = 0;
        while i < self.base.len()
            invariant
                i <= self.base@.len(),
                bv == self.base_view(),
                ov == self.overlay_view(),
                keys_distinct(bv),
                keys_distinct(ov),
                keys_distinct(pairs_view(r@)),
                forall|k: Seq<char>| #[trigger] assoc_get(pairs_view(r@), k) == if has_key(bv.take(i as int), k) {
                    self.effective(k)
                } else {
                    None
                },
            decreases self.base@.len() - i,
        {
            let ghost rv = pairs_view(r@);
            let ghost k = bv[i as int].0;
            proof {
                assert forall|k2: Seq<char>| #[trigger] has_key(bv.take(i + 1), k2) == (has_key(bv.take(i as int), k2) || bv[i as int].0 == k2) by {
                    lemma_has_key_take(bv, i as int, k2);
                }
                if has_key(bv.take(i as int), k) {
                    let j = choose|j: int| 0 <= j < bv.take(i as int).len() && #[trigger] bv.take(i as int)[j].0 == k;
                    assert(bv.take(i as int)[j] == bv[j]);
                }
                assert(!has_key(bv.take(i as int), k));
                assert(assoc_get(rv, k) is None);
                lemma_assoc_get_at(bv, i as int);
            }
            let name = self.base[i].0.as_str();
            let idx = find_key(&self.overlay, name);
            proof {
                lemma_overlay_key(self.overlay@, k, idx);
            }
            let entry: Option<String> = match idx {
                Some(j) => clone_opt_string(&self.overlay[j].1),
                None => Some(self.base[i].1.clone()),
            };
            assert(opt_str_view(entry) == self.effective(k));
            match entry {
                Some(value) => {
                    let key = self.base[i].0.clone();
                    proof {
                        lemma_assoc_push(rv, k, value@);
                        assert(pairs_view(r@.push((key, value))) =~= rv.push((k, value@)));
                    }
                    r.push((key, value));
                },
                None => {},
            }
            i = i + 1;
        }
        proof {
            assert(bv.take(bv.len() as int) =~= bv);
        }
        let mut j: usize = 0;
        while j < self.overlay.len()
            invariant
                j <= self.overlay@.len(),
                bv == self.base_view(),
                ov == self.overlay_view(),
                keys_distinct(bv),
                keys_distinct(ov),
                keys_distinct(pairs_view(r@)),
                forall|k: Seq<char>| #[trigger] assoc_get(pairs_view(r@), k) == if has_key(bv, k) || has_key(ov.take(j as int), k) {
                    self.effective(k)
                } else {
                    None
                },
            decreases self.overlay@.len() - j,
        {
            let ghost rv = pairs_view(r@);
            let ghost k = ov[j as int].0;
            proof {
                assert forall|k2: Seq<char>| #[trigger] has_key(ov.take(j + 1), k2) == (has_key(ov.take(j as int), k2) || ov[j as int].0 == k2) by {
                    lemma_has_key_take(ov, j as int, k2);
                }
                if has_key(ov.take(j as int), k) {
                    let m = choose|m: int| 0 <= m < ov.take(j as int).len() && #[trigger] ov.take(j as int)[m].0 == k;
                    assert(ov.take(j as int)[m] == ov[m]);
                }
                lemma_assoc_get_at(ov, j as int);
            }
            let in_base = find_key(&self.base, self.overlay[j].0.as_str());
            proof {
                lemma_base_key(self.base@, k, in_base);
            }
            if in_base.is_none() {
                match &self.overlay[j].1 {
                    Some(value) => {
                        let key = self.overlay[j].0.clone();
                        let value = value.clone();
                        proof {
                            assert(assoc_get(rv, k) is None);
                            lemma_assoc_push(rv, k, value@);
                            assert(pairs_view(r@.push((key, value))) =~= rv.push((k, value@)));
                        }
                        r.push((key, value));
                    },
                    None => {},
                }
            }
            j = j + 1;
        }
        proof {
            assert(ov.take(ov.len() as int) =~= ov);
            assert forall|k: Seq<char>| #[trigger] assoc_get(pairs_view(r@), k) == self@.get(k) by {
                if !has_key(bv, k) && !has_key(ov, k) {
                    assert(assoc_get(ov, k) is None);
                    assert(assoc_get(bv, k) is None);
                }
            }
        }
        r
    }
}

impl EnvProxy {
    /// Listing law: a list of the effective environment names each variable
    /// exactly once, so its names are distinct, they are exactly the defined
    /// variables, and it has as many pairs as there are variables.
    pub proof fn lemma_listing(&self, pairs: Seq<(Seq<char>, Seq<char>)>)
        requires
            self.is_listed_by(pairs),
        ensures
            assoc_keys(pairs).no_duplicates(),
            assoc_keys(pairs).to_set() == self@.dom(),
            pairs.len() == self@.len(),
            forall|i: int| 0 <= i < pairs.len() ==> self@.get(#[trigger] pairs[i].0) == Some(pairs[i].1),
    {
        let ks = assoc_keys(pairs);
        assert forall|i: int, j: int| 0 <= i < ks.len() && 0 <= j < ks.len() && i != j implies ks[i] != ks[j] by {
            assert(ks[i] == pairs[i].0 && ks[j] == pairs[j].0);
        }
        assert forall|i: int| 0 <= i < pairs.len() implies self@.get(#[trigger] pairs[i].0) == Some(pairs[i].1) by {
            lemma_assoc_get_at(pairs, i);
        }
        assert forall|k: Seq<char>| #[trigger] ks.to_set().contains(k) == self@.dom().contains(k) by {
            if ks.to_set().contains(k) {
                let i = choose|i: int| 0 <= i < ks.len() && ks[i] == k;
                assert(pairs[i].0 == k);
                lemma_assoc_get_at(pairs, i);
            }
            if self@.dom().contains(k) {
                assert(assoc_get(pairs, k) == self@.get(k));
                let i = choose|i: int| 0 <= i < pairs.len() && #[trigger] pairs[i].0 == k;
                assert(ks[i] == k);
            }
        }
        assert(ks.to_set() =~= self@.dom());
        ks.unique_seq_to_set();
    }

    /// All environment variable names, each once.
    pub fn keys(&self) -> (r: Vec<String>)
        ensures
            strings_view(r@).no_duplicates(),
            strings_view(r@).to_set() == self@.dom(),
            exists|pairs: Seq<(Seq<char>, Seq<char>)>| self.is_listed_by(pairs) && strings_view(r@) == assoc_keys(pairs),
    {
        let list = self.to_list();
        let ghost l = pairs_view(list@);
        let mut r: Vec<String> = Vec::new();
        let mut i: usize = 0;
        while i < list.len()
            invariant
                i <= list@.len(),
                l == pairs_view(list@),
                strings_view(r@) =~= assoc_keys(l).take(i as int),
            decreases list@.len() - i,
        {
            let ghost before = strings_view(r@);
            let key = list[i].0.clone();
            r.push(key);
            proof {
                assert(strings_view(r@) =~= before.push(key@));
                assert(assoc_keys(l).take(i + 1) =~= assoc_keys(l).take(i as int).push(l[i as int].0));
            }
            i = i + 1;
        }
        proof {
            assert(assoc_keys(l).take(l.len() as int) =~= assoc_keys(l));
            self.lemma_listing(l);
        }
        r
    }

    /// All environment variable values, in the order of a listing of the variables.
    pub fn values(&self) -> (r: Vec<String>)
        ensures
            exists|pairs: Seq<(Seq<char>, Seq<char>)>| self.is_listed_by(pairs) && strings_view(r@) == assoc_values(pairs),
    {
        let list = self.to_list();
        let ghost l = pairs_view(list@);
        let mut r: Vec<String> = Vec::new();
        let mut i: usize = 0;
        while i < list.len()
            invariant
                i <= list@.len(),
                l == pairs_view(list@),
                strings_view(r@) =~= assoc_values(l).take(i as int),
            decreases list@.len() - i,
        {
            let ghost before = strings_view(r@);
            let value = list[i].1.clone();
            r.push(value);
            proof {
                assert(strings_view(r@) =~= before.push(value@));
                assert(assoc_values(l).take(i + 1) =~= assoc_values(l).take(i as int).push(l[i as int].1));
            }
            i = i + 1;
        }
        proof {
            assert(assoc_values(l).take(l.len() as int) =~= assoc_values(l));
        }
        r
    }

    /// The number of environment variables.
    pub fn length(&self) -> (n: usize)
        ensures
            n == self@.len(),
    {
        let ks = self.keys();
        proof {
            strings_view(ks@).unique_seq_to_set();
        }
        ks.len()
    }

    /// What `values` lists and what `to_list` lists hold the same values, each
    /// as often, as long as the proxy does not change between the calls: both
    /// list the effective environment.
    pub proof fn lemma_values_match_listing(&self, vs: Seq<Seq<char>>, list: Seq<(Seq<char>, Seq<char>)>)
        requires
            exists|pairs: Seq<(Seq<char>, Seq<char>)>| self.is_listed_by(pairs) && vs == assoc_values(pairs),
            self.is_listed_by(list),
        ensures
            vs.to_multiset() == assoc_values(list).to_multiset(),
            vs.len() == list.len(),
    {
        let pairs = choose|pairs: Seq<(Seq<char>, Seq<char>)>| self.is_listed_by(pairs) && vs == assoc_values(pairs);
        assert forall|k: Seq<char>| #[trigger] assoc_get(pairs, k) == assoc_get(list, k) by {
            assert(assoc_get(pairs, k) == self@.get(k));
            assert(assoc_get(list, k) == self@.get(k));
        }
        lemma_same_bindings_same_values(pairs, list);
    }

    /// The overlay entries, in the order they were first recorded: a value for a
    /// variable set through the proxy, `None` for one deleted through it. Each
    /// name occurs once, with what the overlay records for it.
    pub fn overlay_entries(&self) -> (r: Vec<(String, Option<String>)>)
        ensures
            entries_view(r@) == self.overlay_view(),
            keys_distinct(entries_view(r@)),
            forall|k: Seq<char>| #[trigger] assoc_get(entries_view(r@), k) == self.overlay_map().get(k),
    {
        proof {
            use_type_invariant(self);
        }
        let mut r: Vec<(String, Option<String>)> = Vec::new();
        let mut i: usize = 0;
        while i < self.overlay.len()
            invariant
                i <= self.overlay@.len(),
                entries_view(r@) =~= self.overlay_view().take(i as int),
            decreases self.overlay@.len() - i,
        {
            let k = self.overlay[i].0.clone();
            let v = clone_opt_string(&self.overlay[i].1);
            let ghost before = entries_view(r@);
            r.push((k, v));
            proof {
                assert(entries_view(r@) =~= before.push((k@, opt_str_view(v))));
                assert(self.overlay_view().take(i + 1) =~= self.overlay_view().take(i as int).push(self.overlay_view()[i as int]));
            }
            i = i + 1;
        }
        proof {
            assert(self.overlay_view().take(self.overlay@.len() as int) =~= self.overlay_view());
        }
        r
    }
}

impl Default for EnvProxy {
    fn default() -> (r: Self)
        ensures
            r@ == Map::<Seq<char>, Seq<char>>::empty(),
            r.base_map() == Map::<Seq<char>, Seq<char>>::empty(),
            r.overlay_map() == Map::<Seq<char>, Option<Seq<char>>>::empty(),
    {
        Self::new()
    }
}

/// Read-after-write law: once `set(key, value)` has succeeded, `get(key)` gives
/// `value` and every other variable reads as before.
pub proof fn lemma_get_after_set(before: EnvProxy, after: EnvProxy, key: Seq<char>, value: Seq<char>)
    requires
        set_refusal(key, value) is None,
        after@ == before@.insert(key, value),
    ensures
        after@.get(key) == Some(value),
        after@.contains_key(key),
        forall|k: Seq<char>| k != key ==> #[trigger] after@.get(k) == before@.get(k),
{
}

/// Which settings are refused: exactly those with an empty key, a key that
/// holds `=` or NUL, or a value that holds NUL. Every other key and value is
/// accepted, and the key then reads back that value while every other
/// variable reads as before.
pub proof fn lemma_set_refused_exactly(before: EnvProxy, after: EnvProxy, key: Seq<char>, value: Seq<char>)
    ensures
        (set_refusal(key, value) is Some) <==> (key.len() == 0 || key.contains('=') || key.contains('\0') || value.contains('\0')),
        (key.len() > 0 && !key.contains('=') && !key.contains('\0') && !value.contains('\0')
            && after@ == before@.insert(key, value)) ==> {
            &&& after@.get(key) == Some(value)
            &&& forall|k: Seq<char>| k != key ==> #[trigger] after@.get(k) == before@.get(k)
        },
{
}

/// Delete law: after `delete(key)`, `get(key)` gives nothing, `contains(key)` is
/// false, a second `delete(key)` reports that nothing existed, and every other
/// variable reads as before.
pub proof fn lemma_get_after_delete(before: EnvProxy, after: EnvProxy, key: Seq<char>)
    requires
        after@ == before@.remove(key),
    ensures
        after@.get(key) is None,
        !after@.contains_key(key),
        forall|k: Seq<char>| k != key ==> #[trigger] after@.get(k) == before@.get(k),
{
}

/// Overlay precedence: a variable recorded in the overlay reads as recorded
/// (its value, or absent when deleted), whatever the base environment holds.
pub proof fn lemma_overlay_precedence(p: EnvProxy, key: Seq<char>)
    requires
        p.overlay_map().contains_key(key),
    ensures
        p@.get(key) == p.overlay_map()[key],
{
    assert(has_key(p.overlay_view(), key));
}

/// Without an overlay entry, a variable reads as in the base environment.
pub proof fn lemma_base_fallback(p: EnvProxy, key: Seq<char>)
    requires
        !p.overlay_map().contains_key(key),
    ensures
        p@.get(key) == p.base_map().get(key),
{
    assert(!has_key(p.overlay_view(), key));
}

} // verus!
