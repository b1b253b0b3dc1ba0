//! Lexically scoped variable environments.
//!
//! Every scope lives in an `EnvStore` and is named by an `Env` handle. A scope
//! has its own bindings and, except for a root, a parent scope. Lookups search
//! the scope and then its ancestors; several child scopes may share a parent,
//! and an update made through one handle is seen through every handle whose
//! chain reaches the updated scope.

use vstd::prelude::*;
use crate::assoc::{assoc_get, assoc_keys, assoc_set, has_key, keys_distinct, lemma_assoc_get_at, lemma_assoc_set};
use crate::error::RuntimeError;
use crate::text::str_eq;

verus! {

/// A handle naming one scope of an `EnvStore`.
#[derive(Clone, Copy, Debug, PartialEq, Eq, Structural)]
pub struct Env {
    id: usize,
}

impl Env {
    /// The position of the scope in its store.
    pub closed spec fn index(&self) -> int {
        self.id as int
    }
}

struct Scope<V> {
    parent: Option<usize>,
    bindings: Vec<(String, V)>,
}

/// Scopes, each with its parent (if any) and its bindings in insertion order.
pub type ScopesView<V> = Seq<(Option<int>, Seq<(Seq<char>, V)>)>;

/// A scope's parent comes before it, and no name is bound twice in a scope.
pub open spec fn scopes_wf<V>(s: ScopesView<V>) -> bool {
    forall|i: int| 0 <= i < s.len() ==> {
        &&& (#[trigger] s[i]).0 matches Some(p) ==> 0 <= p < i
        &&& keys_distinct(s[i].1)
    }
}

/// The value of `name` seen from scope `i`: its binding in the scope, or else
/// in the nearest ancestor that binds it.
pub open spec fn resolve<V>(s: ScopesView<V>, i: int, name: Seq<char>) -> Option<V>
    decreases i,
{
    if 0 <= i < s.len() {
        match assoc_get(s[i].1, name) {
            Some(v) => Some(v),
            None => match s[i].0 {
                Some(p) => if 0 <= p < i {
                    resolve(s, p, name)
                } else {
                    None
                },
                None => None,
            },
        }
    } else {
        None
    }
}

/// The scope that binds the `name` seen from scope `i`: `i` itself or its
/// nearest ancestor binding it.
pub open spec fn owner<V>(s: ScopesView<V>, i: int, name: Seq<char>) -> Option<int>
    decreases i,
{
    if 0 <= i < s.len() {
        if has_key(s[i].1, name) {
            Some(i)
        } else {
            match s[i].0 {
                Some(p) => if 0 <= p < i {
                    owner(s, p, name)
                } else {
                    None
                },
                None => None,
            }
        }
    } else {
        None
    }
}

/// The names of `xs` that are not in `ys`, in order.
pub open spec fn names_not_in(xs: Seq<Seq<char>>, ys: Seq<Seq<char>>) -> Seq<Seq<char>>
    decreases xs.len(),
{
    if xs.len() == 0 {
        xs
    } else if ys.contains(xs.last()) {
        names_not_in(xs.drop_last(), ys)
    } else {
        names_not_in(xs.drop_last(), ys).push(xs.last())
    }
}

/// The names visible from scope `i`: its own names in insertion order, then
/// those of its ancestors that it does not shadow.
pub open spec fn visible_names<V>(s: ScopesView<V>, i: int) -> Seq<Seq<char>>
    decreases i,
{
    if 0 <= i < s.len() {
        let local = assoc_keys(s[i].1);
        match s[i].0 {
            Some(p) => if 0 <= p < i {
                local + names_not_in(visible_names(s, p), local)
            } else {
                local
            },
            None => local,
        }
    } else {
        Seq::empty()
    }
}

/// A store of scopes.
pub struct EnvStore<V> {
    scopes: Vec<Scope<V>>,
}

/// A scope's bindings by characters.
pub open spec fn bindings_view<V>(b: Seq<(String, V)>) -> Seq<(Seq<char>, V)> {
    b.map_values(|p: (String, V)| (p.0@, p.1))
}

/// The position of the first binding of `key`, if any.
pub(crate) fn find_binding<V>(v: &Vec<(String, V)>, key: &str) -> (r: Option<usize>)
    ensures
        r matches Some(i) ==> i < v@.len() && v@[i as int].0@ == key@
            && forall|j: int| 0 <= j < i ==> #[trigger] v@[j].0@ != key@,
        r is None ==> forall|i: int| 0 <= i < v@.len() ==> #[trigger] v@[i].0@ != key@,
{
    let mut i: usize = 0;
    while i < v.len()
        invariant
            i <= v@.len(),
            forall|j: int| 0 <= j < i ==> #[trigger] v@[j].0@ != key@,
        decreases v@.len() - i,
    {
        if str_eq(v[i].0.as_str(), key) {
            return Some(i);
        }
        i = i + 1;
    }
    None
}

proof fn lemma_find_binding<V>(v: Seq<(String, V)>, key: Seq<char>, r: Option<usize>)
    requires
        keys_distinct(bindings_view(v)),
        r matches Some(i) ==> i < v.len() && v[i as int].0@ == key,
        r is None ==> forall|i: int| 0 <= i < v.len() ==> #[trigger] v[i].0@ != key,
    ensures
        r matches Some(i) ==> assoc_get(bindings_view(v), key) == Some(v[i as int].1),
        r is Some <==> has_key(bindings_view(v), key),
{
    let bv = bindings_view(v);
    match r {
        Some(i) => {
            lemma_assoc_get_at(bv, i as int);
            assert(bv[i as int].0 == key);
        },
        None => {
            if has_key(bv, key) {
                let i = choose|i: int| 0 <= i < bv.len() && #[trigger] bv[i].0 == key;
                assert(v[i].0@ != key);
            }
        },
    }
}

/// Bind `key` to `value` in a list of bindings.
pub(crate) fn bind<V>(v: &mut Vec<(String, V)>, key: &str, value: V)
    requires
        keys_distinct(bindings_view(old(v)@)),
    ensures
        bindings_view(final(v)@) == assoc_set(bindings_view(old(v)@), key@, value),
{
    let ghost bv = bindings_view(v@);
    let idx = find_binding(v, key);
    proof {
        lemma_find_binding(v@, key@, idx);
    }
    match idx {
        Some(i) => {
            proof {
                let j = choose|j: int| 0 <= j < bv.len() && #[trigger] bv[j].0 == key@;
                if j != i as int {
                    assert(bv[j].0 == bv[i as int].0);
                }
            }
            let k = v[i].0.clone();
            v.set(i, (k, value));
            assert(bindings_view(v@) =~= assoc_set(bv, key@, value));
        },
        None => {
            let k: String = key.to_owned();
            v.push((k, value));
            assert(bindings_view(v@) =~= assoc_set(bv, key@, value));
        },
    }
}

spec fn scope_view<V>(sc: Scope<V>) -> (Option<int>, Seq<(Seq<char>, V)>) {
    (
        match sc.parent {
            Some(p) => Some(p as int),
            None => None,
        },
        bindings_view(sc.bindings@),
    )
}

spec fn scopes_view<V>(v: Seq<Scope<V>>) -> ScopesView<V> {
    v.map_values(|sc: Scope<V>| scope_view(sc))
}

impl<V> EnvStore<V> {
    /// The scopes by characters.
    pub closed spec fn view(&self) -> ScopesView<V> {
        scopes_view(self.scopes@)
    }

    #[verifier::type_invariant]
    closed spec fn wf(&self) -> bool {
        scopes_wf(self.view())
    }

    /// `env` names a scope of this store.
    pub open spec fn has_env(&self, env: Env) -> bool {
        0 <= env.index() < self.view().len()
    }

    /// A store with no scopes.
    pub fn new() -> (r: Self)
        ensures
            r.view() == Seq::<(Option<int>, Seq<(Seq<char>, V)>)>::empty(),
    {
        let r = EnvStore { scopes: Vec::new() };
        assert(r.view() =~= Seq::<(Option<int>, Seq<(Seq<char>, V)>)>::empty());
        r
    }

    fn push_scope(&mut self, parent: Option<usize>) -> (env: Env)
        requires
            parent matches Some(p) ==> p < old(self).view().len(),
        ensures
            env.index() == old(self).view().len(),
            final(self).view() == old(self).view().push((
                match parent {
                    Some(p) => Some(p as int),
                    None => None,
                },
                Seq::<(Seq<char>, V)>::empty(),
            )),
    {
        proof {
            use_type_invariant(&*self);
        }
        let ghost before = self.view();
        let id = self.scopes.len();
        let mut scopes: Vec<Scope<V>> = Vec::new();
        std::mem::swap(&mut scopes, &mut self.scopes);
        let sc = Scope { parent, bindings: Vec::new() };
        scopes.push(sc);
        let ghost after = before.push((
            match parent {
                Some(p) => Some(p as int),
                None => None,
            },
            Seq::<(Seq<char>, V)>::empty(),
        ));
        proof {
            assert(bindings_view(sc.bindings@) =~= Seq::<(Seq<char>, V)>::empty());
            assert forall|i: int| 0 <= i < after.len() implies {
                &&& (#[trigger] after[i]).0 matches Some(p) ==> 0 <= p < i
                &&& keys_distinct(after[i].1)
            } by {
                if i < before.len() {
                    assert(after[i] == before[i]);
                }
            }
            assert(scopes_view(scopes@) =~= after);
        }
        self.scopes = scopes;
        proof {
            assert(self.view() =~= after);
        }
        Env { id }
    }

    /// Create a new root scope.
    pub fn new_root(&mut self) -> (env: Env)
        ensures
            env.index() == old(self).view().len(),
            final(self).view() == old(self).view().push((None, Seq::<(Seq<char>, V)>::empty())),
    {
        self.push_scope(None)
    }

    /// Create a new child scope of `parent`.
    pub fn new_child(&mut self, parent: Env) -> (env: Env)
        requires
            old(self).has_env(parent),
        ensures
            env.index() == old(self).view().len(),
            final(self).view() == old(self).view().push((Some(parent.index()), Seq::<(Seq<char>, V)>::empty())),
    {
        self.push_scope(Some(parent.id))
    }

    /// Bind `name` to `value` in scope `i`, leaving every other scope alone.
    fn bind_in(&mut self, i: usize, name: &str, value: V)
        requires
            i < old(self).view().len(),
        ensures
            final(self).view() == old(self).view().update(
                i as int,
                (old(self).view()[i as int].0, assoc_set(old(self).view()[i as int].1, name@, value)),
            ),
    {
        proof {
            use_type_invariant(&*self);
        }
        let ghost before = self.view();
        let mut scopes: Vec<Scope<V>> = Vec::new();
        std::mem::swap(&mut scopes, &mut self.scopes);
        assert(scopes_view(scopes@) == before);
        let ghost old_scopes = scopes@;
        assert(keys_distinct(bindings_view(scopes@[i as int].bindings@))) by {
            assert(before[i as int].1 == bindings_view(scopes@[i as int].bindings@));
        }
        bind(&mut scopes[i].bindings, name, value);
        let ghost after = before.update(i as int, (before[i as int].0, assoc_set(before[i as int].1, name@, value)));
        proof {
            lemma_assoc_set(before[i as int].1, name@, value);
            assert forall|j: int| 0 <= j < after.len() implies {
                &&& (#[trigger] after[j]).0 matches Some(p) ==> 0 <= p < j
                &&& keys_distinct(after[j].1)
            } by {
                if j != i as int {
                    assert(after[j] == before[j]);
                }
            }
            assert(scopes_view(scopes@) =~= after) by {
                assert forall|j: int| 0 <= j < after.len() implies #[trigger] scopes_view(scopes@)[j] == after[j] by {
                    if j != i as int {
                        assert(scopes@[j] == old_scopes[j]);
                    }
                }
            }
        }
        self.scopes = scopes;
        proof {
            assert(self.view() =~= after);
        }
    }

    /// Define a new variable or update an existing one in the scope `env`.
    pub fn define_or_set(&mut self, env: Env, name: &str, value: V)
        requires
            old(self).has_env(env),
        ensures
            final(self).view() == old(self).view().update(
                env.index(),
                (old(self).view()[env.index()].0, assoc_set(old(self).view()[env.index()].1, name@, value)),
            ),
    {
        self.bind_in(env.id, name, value);
    }

    /// The scope that binds `name` as seen from `env`.
    fn find_owner(&self, env: Env, name: &str) -> (r: Option<usize>)
        requires
            self.has_env(env),
        ensures
            match r {
                Some(o) => owner(self.view(), env.index(), name@) == Some(o as int) && o < self.view().len(),
                None => owner(self.view(), env.index(), name@) is None,
            },
    {
        proof {
            use_type_invariant(self);
        }
        let ghost s = self.view();
        let mut cur: usize = env.id;
        loop
            invariant
                s == self.view(),
                scopes_wf(s),
                cur < s.len(),
                owner(s, env.index(), name@) == owner(s, cur as int, name@),
            decreases cur,
        {
            let idx = find_binding(&self.scopes[cur].bindings, name);
            proof {
                assert(s[cur as int].1 == bindings_view(self.scopes@[cur as int].bindings@));
                lemma_find_binding(self.scopes@[cur as int].bindings@, name@, idx);
            }
            if idx.is_some() {
                return Some(cur);
            }
            match self.scopes[cur].parent {
                Some(p) => {
                    assert(s[cur as int].0 == Some(p as int));
                    cur = p;
                },
                None => {
                    return None;
                },
            }
        }
    }

    /// Set an existing variable in the scope that binds it as seen from `env`;
    /// if no scope on the chain binds it, define it in `env`.
    pub fn set_existing(&mut self, env: Env, name: &str, value: V) -> (r: Result<(), RuntimeError>)
        requires
            old(self).has_env(env),
        ensures
            r is Ok,
            ({
                let s = old(self).view();
                let target = match owner(s, env.index(), name@) {
                    Some(o) => o,
                    None => env.index(),
                };
                final(self).view() == s.update(target, (s[target].0, assoc_set(s[target].1, name@, value)))
            }),
    {
        let target = match self.find_owner(env, name) {
            Some(o) => o,
            None => env.id,
        };
        self.bind_in(target, name, value);
        Ok(())
    }

    /// Check if a variable exists in `env` or any of its ancestors.
    pub fn contains(&self, env: Env, name: &str) -> (b: bool)
        requires
            self.has_env(env),
        ensures
            b == resolve(self.view(), env.index(), name@) is Some,
    {
        proof {
            use_type_invariant(self);
            lemma_owner_resolve(self.view(), env.index(), name@);
        }
        self.find_owner(env, name).is_some()
    }

    /// The number of bindings in the scope `env`.
    pub fn binding_count(&self, env: Env) -> (n: usize)
        requires
            self.has_env(env),
        ensures
            n == self.view()[env.index()].1.len(),
    {
        self.scopes[env.id].bindings.len()
    }

    /// The names bound in the scope `env`, in insertion order.
    pub fn local_names(&self, env: Env) -> (r: Vec<String>)
        requires
            self.has_env(env),
        ensures
            r@.map_values(|s: String| s@) == assoc_keys(self.view()[env.index()].1),
    {
        let b = &self.scopes[env.id].bindings;
        let ghost keys = assoc_keys(self.view()[env.index()].1);
        assert(keys == assoc_keys(bindings_view(b@)));
        let mut r: Vec<String> = Vec::new();
        let mut i: usize = 0;
        while i < b.len()
            invariant
                i <= b@.len(),
                keys == assoc_keys(bindings_view(b@)),
                r@.map_values(|s: String| s@) =~= keys.take(i as int),
            decreases b@.len() - i,
        {
            let ghost before = r@.map_values(|s: String| s@);
            let k = b[i].0.clone();
            r.push(k);
            proof {
                assert(r@.map_values(|s: String| s@) =~= before.push(k@));
                assert(keys.take(i + 1) =~= keys.take(i as int).push(keys[i as int]));
            }
            i = i + 1;
        }
        assert(keys.take(b@.len() as int) =~= keys);
        r
    }
}

/// Whether `name` is among `names`.
fn names_contain(names: &Vec<String>, name: &str) -> (b: bool)
    ensures
        b == names@.map_values(|s: String| s@).contains(name@),
{
    let ghost nv = names@.map_values(|s: String| s@);
    let mut i: usize = 0;
    while i < names.len()
        invariant
            i <= names@.len(),
            nv == names@.map_values(|s: String| s@),
            forall|j: int| 0 <= j < i ==> nv[j] != name@,
        decreases names@.len() - i,
    {
        if str_eq(names[i].as_str(), name) {
            assert(nv[i as int] == name@);
            return true;
        }
        i = i + 1;
    }
    false
}

impl<V> EnvStore<V> {
    fn visible_names_at(&self, i: usize) -> (r: Vec<String>)
        requires
            i < self.view().len(),
        ensures
            r@.map_values(|s: String| s@) == visible_names(self.view(), i as int),
        decreases i,
    {
        proof {
            use_type_invariant(self);
        }
        let ghost s = self.view();
        let local = self.local_names(Env { id: i });
        let ghost lv = local@.map_values(|x: String| x@);
        assert(lv == assoc_keys(s[i as int].1));
        match self.scopes[i].parent {
            Some(p) => {
                assert(s[i as int].0 == Some(p as int));
                let parent_names = self.visible_names_at(p);
                let ghost pv = parent_names@.map_values(|x: String| x@);
                let mut names = self.local_names(Env { id: i });
                let mut j: usize = 0;
                while j < parent_names.len()
                    invariant
                        j <= parent_names@.len(),
                        pv == parent_names@.map_values(|x: String| x@),
                        lv == local@.map_values(|x: String| x@),
                        names@.map_values(|x: String| x@) =~= lv + names_not_in(pv.take(j as int), lv),
                    decreases parent_names@.len() - j,
                {
                    let ghost before = names@.map_values(|x: String| x@);
                    proof {
                        assert(pv.take(j + 1).drop_last() =~= pv.take(j as int));
                        assert(pv.take(j + 1).last() == pv[j as int]);
                    }
                    if !names_contain(&local, parent_names[j].as_str()) {
                        let n = parent_names[j].clone();
                        names.push(n);
                        proof {
                            assert(names@.map_values(|x: String| x@) =~= before.push(n@));
                        }
                    }
                    j = j + 1;
                }
                proof {
                    assert(pv.take(pv.len() as int) =~= pv);
                }
                names
            },
            None => local,
        }
    }

    /// The names visible from `env`: its own names, then the names of its
    /// ancestors that it does not shadow.
    pub fn all_names(&self, env: Env) -> (r: Vec<String>)
        requires
            self.has_env(env),
        ensures
            r@.map_values(|s: String| s@) == visible_names(self.view(), env.index()),
    {
        self.visible_names_at(env.id)
    }
}

impl<V> Default for EnvStore<V> {
    fn default() -> (r: Self)
        ensures
            r.view() == Seq::<(Option<int>, Seq<(Seq<char>, V)>)>::empty(),
    {
        Self::new()
    }
}

impl<V: Clone> EnvStore<V> {
    /// Get a variable's value, searching `env` and then its ancestors.
    pub fn get(&self, env: Env, name: &str) -> (r: Result<V, RuntimeError>)
        requires
            self.has_env(env),
        ensures
            match resolve(self.view(), env.index(), name@) {
                Some(v) => r matches Ok(x) && cloned(v, x),
                None => r matches Err(RuntimeError::UndefinedVariable { name: n }) && n@ == name@,
            },
    {
        proof {
            use_type_invariant(self);
        }
        let ghost s = self.view();
        let mut cur: usize = env.id;
        loop
            invariant
                s == self.view(),
                scopes_wf(s),
                cur < s.len(),
                resolve(s, env.index(), name@) == resolve(s, cur as int, name@),
            decreases cur,
        {
            let idx = find_binding(&self.scopes[cur].bindings, name);
            proof {
                assert(s[cur as int].1 == bindings_view(self.scopes@[cur as int].bindings@));
                lemma_find_binding(self.scopes@[cur as int].bindings@, name@, idx);
            }
            match idx {
                Some(j) => {
                    return Ok(self.scopes[cur].bindings[j].1.clone());
                },
                None => {},
            }
            match self.scopes[cur].parent {
                Some(p) => {
                    assert(s[cur as int].0 == Some(p as int));
                    cur = p;
                },
                None => {
                    return Err(RuntimeError::UndefinedVariable { name: name.to_owned() });
                },
            }
        }
    }
}

/// A name is bound as seen from a scope exactly when some scope on its chain binds it.
pub proof fn lemma_owner_resolve<V>(s: ScopesView<V>, i: int, name: Seq<char>)
    requires
        scopes_wf(s),
    ensures
        owner(s, i, name) is Some <==> resolve(s, i, name) is Some,
        owner(s, i, name) matches Some(o) ==> 0 <= o <= i && o < s.len() && has_key(s[o].1, name)
            && resolve(s, i, name) == assoc_get(s[o].1, name),
    decreases i,
{
    if 0 <= i < s.len() {
        if has_key(s[i].1, name) {
            let j = choose|j: int| 0 <= j < s[i].1.len() && #[trigger] s[i].1[j].0 == name;
            lemma_assoc_get_at(s[i].1, j);
        } else {
            match s[i].0 {
                Some(p) => {
                    lemma_owner_resolve(s, p, name);
                },
                None => {},
            }
        }
    }
}

/// The scopes after binding `name` to `value` in scope `t`.
pub open spec fn bound_in<V>(s: ScopesView<V>, t: int, name: Seq<char>, value: V) -> ScopesView<V> {
    s.update(t, (s[t].0, assoc_set(s[t].1, name, value)))
}

proof fn lemma_resolve_bound_in<V>(s: ScopesView<V>, t: int, name: Seq<char>, value: V, j: int, n: Seq<char>)
    requires
        scopes_wf(s),
        0 <= t < s.len(),
    ensures
        j < t ==> resolve(bound_in(s, t, name, value), j, n) == resolve(s, j, n),
        n != name ==> resolve(bound_in(s, t, name, value), j, n) == resolve(s, j, n),
        j == t && n == name ==> resolve(bound_in(s, t, name, value), j, n) == Some(value),
        owner(s, j, name) == Some(t) ==> resolve(bound_in(s, t, name, value), j, name) == Some(value),
    decreases j,
{
    let s2 = bound_in(s, t, name, value);
    lemma_assoc_set(s[t].1, name, value);
    if 0 <= j < s.len() {
        assert(s2[j].0 == s[j].0);
        if j != t {
            assert(s2[j] == s[j]);
        }
        match s[j].0 {
            Some(p) => {
                lemma_resolve_bound_in(s, t, name, value, p, n);
                lemma_resolve_bound_in(s, t, name, value, p, name);
            },
            None => {},
        }
        if owner(s, j, name) == Some(t) && j != t {
            assert(!has_key(s[j].1, name));
            if has_key(s2[j].1, name) {
                let k = choose|k: int| 0 <= k < s2[j].1.len() && #[trigger] s2[j].1[k].0 == name;
                assert(s[j].1[k].0 == name);
            }
        }
    }
}

proof fn lemma_resolve_push<V>(s: ScopesView<V>, x: (Option<int>, Seq<(Seq<char>, V)>), j: int, n: Seq<char>)
    requires
        scopes_wf(s),
        0 <= j < s.len(),
    ensures
        resolve(s.push(x), j, n) == resolve(s, j, n),
    decreases j,
{
    assert(s.push(x)[j] == s[j]);
    match s[j].0 {
        Some(p) => {
            lemma_resolve_push(s, x, p, n);
        },
        None => {},
    }
}

/// Read-after-write law of `define_or_set`: the scope then gives the new value
/// for the name; every other name reads as before from every scope; and scopes
/// created before it (its ancestors among them) do not see the binding.
pub proof fn lemma_get_after_define<V>(s: ScopesView<V>, i: int, name: Seq<char>, value: V)
    requires
        scopes_wf(s),
        0 <= i < s.len(),
    ensures
        resolve(bound_in(s, i, name, value), i, name) == Some(value),
        forall|j: int, n: Seq<char>| n != name ==> #[trigger] resolve(bound_in(s, i, name, value), j, n) == resolve(s, j, n),
        forall|j: int, n: Seq<char>| j < i ==> #[trigger] resolve(bound_in(s, i, name, value), j, n) == resolve(s, j, n),
{
    lemma_resolve_bound_in(s, i, name, value, i, name);
    assert forall|j: int, n: Seq<char>| n != name implies #[trigger] resolve(bound_in(s, i, name, value), j, n) == resolve(s, j, n) by {
        lemma_resolve_bound_in(s, i, name, value, j, n);
    }
    assert forall|j: int, n: Seq<char>| j < i implies #[trigger] resolve(bound_in(s, i, name, value), j, n) == resolve(s, j, n) by {
        lemma_resolve_bound_in(s, i, name, value, j, n);
    }
}

/// Law of `set_existing`: the name then reads as the new value from the scope
/// it was set through, and from the scope that bound it, when one did;
/// every other name reads as before.
pub proof fn lemma_get_after_set_existing<V>(s: ScopesView<V>, i: int, name: Seq<char>, value: V)
    requires
        scopes_wf(s),
        0 <= i < s.len(),
    ensures
        ({
            let target = match owner(s, i, name) {
                Some(o) => o,
                None => i,
            };
            let s2 = bound_in(s, target, name, value);
            &&& resolve(s2, i, name) == Some(value)
            &&& (owner(s, i, name) matches Some(o) ==> resolve(s2, o, name) == Some(value))
            &&& forall|j: int, n: Seq<char>| n != name ==> #[trigger] resolve(s2, j, n) == resolve(s, j, n)
        }),
{
    lemma_owner_resolve(s, i, name);
    let target = match owner(s, i, name) {
        Some(o) => o,
        None => i,
    };
    lemma_resolve_bound_in(s, target, name, value, i, name);
    lemma_resolve_bound_in(s, target, name, value, target, name);
    let s2 = bound_in(s, target, name, value);
    assert forall|j: int, n: Seq<char>| n != name implies #[trigger] resolve(s2, j, n) == resolve(s, j, n) by {
        lemma_resolve_bound_in(s, target, name, value, j, n);
    }
}

/// A new child scope sees exactly what its parent sees, and adding it changes
/// nothing seen from the existing scopes.
pub proof fn lemma_new_child_sees_parent<V>(s: ScopesView<V>, p: int, n: Seq<char>)
    requires
        scopes_wf(s),
        0 <= p < s.len(),
    ensures
        resolve(s.push((Some(p), Seq::<(Seq<char>, V)>::empty())), s.len() as int, n) == resolve(s, p, n),
        forall|j: int| 0 <= j < s.len() ==> #[trigger] resolve(s.push((Some(p), Seq::<(Seq<char>, V)>::empty())), j, n) == resolve(s, j, n),
{
    let x = (Some(p), Seq::<(Seq<char>, V)>::empty());
    let s2 = s.push(x);
    assert(s2[s.len() as int] == x);
    assert(assoc_get(x.1, n) is None) by {
        if has_key(x.1, n) {
            let k = choose|k: int| 0 <= k < x.1.len() && #[trigger] x.1[k].0 == n;
        }
    }
    lemma_resolve_push(s, x, p, n);
    assert forall|j: int| 0 <= j < s.len() implies #[trigger] resolve(s2, j, n) == resolve(s, j, n) by {
        lemma_resolve_push(s, x, j, n);
    }
}

} // verus!
