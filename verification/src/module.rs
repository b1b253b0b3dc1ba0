//! The registry of modules: built-in modules and file-based ones, and the
//! resolution of modules, of their items, and of items of nested modules
//! named by paths such as `std:json`.

use vstd::prelude::*;
use crate::assoc::{assoc_get, has_key, keys_distinct, assoc_set, lemma_assoc_set};
use crate::env::{bind, bindings_view, find_binding};
use crate::error::RuntimeError;
use crate::str_ops::{join_strings, join_with, split_pieces, split_str};
use crate::text::strings_view;

verus! {

/// A value as module resolution reads it.
#[derive(Debug)]
pub enum ModuleValue<V> {
    /// A map, which serves as a module: its entries with string keys, in
    /// order. Lookup by name never reaches an entry whose key is not a
    /// string, so those are not held.
    Module(Vec<(String, ModuleValue<V>)>),
    /// A value of any other kind.
    Item(V),
}

/// The value of the first entry of `e` with key `k`.
pub open spec fn first_with_key<X>(e: Seq<(Seq<char>, X)>, k: Seq<char>) -> Option<X> {
    if has_key(e, k) {
        Some(e[choose|i: int| 0 <= i < e.len() && e[i].0 == k && forall|j: int| 0 <= j < i ==> #[trigger] e[j].0 != k].1)
    } else {
        None
    }
}

proof fn lemma_first_with_key<X>(e: Seq<(Seq<char>, X)>, k: Seq<char>, i: int)
    requires
        0 <= i < e.len(),
        e[i].0 == k,
        forall|j: int| 0 <= j < i ==> #[trigger] e[j].0 != k,
    ensures
        first_with_key(e, k) == Some(e[i].1),
{
    assert(has_key(e, k));
    let c = choose|c: int| 0 <= c < e.len() && e[c].0 == k && forall|j: int| 0 <= j < c ==> #[trigger] e[j].0 != k;
    if c < i {
        assert(e[c].0 != k);
    }
    if i < c {
        assert(e[i].0 != k);
    }
}

/// The entry named `name` of a module value, if it is a map and has one.
pub open spec fn module_entry<V>(m: ModuleValue<V>, name: Seq<char>) -> Option<ModuleValue<V>> {
    match m {
        ModuleValue::Module(e) => first_with_key(bindings_view(e@), name),
        ModuleValue::Item(_) => None,
    }
}

/// The message for a module that is not there.
pub open spec fn module_not_found(name: Seq<char>) -> Seq<char> {
    "Module '"@ + name + "' not found"@
}

/// Walk from `node` down the modules named `parts[i..]`, `prefix` being the
/// path that the messages name.
pub open spec fn descend<V>(node: ModuleValue<V>, parts: Seq<Seq<char>>, i: int, prefix: Seq<char>) -> Result<ModuleValue<V>, Seq<char>>
    decreases parts.len() - i,
{
    if i < 1 || i >= parts.len() {
        Ok(node)
    } else {
        match node {
            ModuleValue::Module(e) => match first_with_key(bindings_view(e@), parts[i]) {
                Some(m) => match m {
                    ModuleValue::Module(_) => descend(m, parts, i + 1, prefix),
                    ModuleValue::Item(_) => Err("'"@ + parts[i] + "' is not a module in '"@ + prefix + "'"@),
                },
                None => Err("Module '"@ + parts[i] + "' not found in '"@ + prefix + "'"@),
            },
            ModuleValue::Item(_) => Err("'"@ + parts[0] + "' is not a valid module (not a map)"@),
        }
    }
}

/// The item `item` of the module `module`, `path` being its name in messages.
pub open spec fn item_of<V>(module: ModuleValue<V>, path: Seq<char>, item: Seq<char>) -> Result<ModuleValue<V>, Seq<char>> {
    match module {
        ModuleValue::Module(e) => match first_with_key(bindings_view(e@), item) {
            Some(v) => Ok(v),
            None => Err("Item '"@ + item + "' not found in module '"@ + path + "'"@),
        },
        ModuleValue::Item(_) => Err("Module '"@ + path + "' is not a valid module (not a map)"@),
    }
}

/// `r` is `spec`: the same value, or an invalid-operation error with its message.
pub open spec fn resolves_as<V>(r: Result<&ModuleValue<V>, RuntimeError>, spec: Result<ModuleValue<V>, Seq<char>>) -> bool {
    match spec {
        Ok(v) => r matches Ok(x) && *x == v,
        Err(msg) => r matches Err(RuntimeError::InvalidOperation { message }) && message@ == msg,
    }
}

/// Registry for managing modules.
pub struct ModuleRegistry<V> {
    builtins: Vec<(String, ModuleValue<V>)>,
    file_modules: Vec<(String, ModuleValue<V>)>,
}

impl<V> ModuleRegistry<V> {
    /// The built-in modules by name.
    pub closed spec fn builtins_view(&self) -> Seq<(Seq<char>, ModuleValue<V>)> {
        bindings_view(self.builtins@)
    }

    /// The file-based modules by name.
    pub closed spec fn files_view(&self) -> Seq<(Seq<char>, ModuleValue<V>)> {
        bindings_view(self.file_modules@)
    }

    #[verifier::type_invariant]
    closed spec fn wf(&self) -> bool {
        &&& keys_distinct(self.builtins_view())
        &&& keys_distinct(self.files_view())
    }

    /// The built-in modules as a map.
    pub open spec fn builtins_map(&self) -> Map<Seq<char>, ModuleValue<V>> {
        Map::new(|k: Seq<char>| has_key(self.builtins_view(), k), |k: Seq<char>| assoc_get(self.builtins_view(), k)->0)
    }

    /// The file-based modules as a map.
    pub open spec fn files_map(&self) -> Map<Seq<char>, ModuleValue<V>> {
        Map::new(|k: Seq<char>| has_key(self.files_view(), k), |k: Seq<char>| assoc_get(self.files_view(), k)->0)
    }

    /// The module named `name`: a built-in one first, then a file-based one.
    pub open spec fn module_named(&self, name: Seq<char>) -> Option<ModuleValue<V>> {
        if self.builtins_map().dom().contains(name) {
            Some(self.builtins_map()[name])
        } else {
            self.files_map().get(name)
        }
    }

    /// What resolving `item` in the nested module `path` gives.
    pub open spec fn nested_item(&self, path: Seq<char>, item: Seq<char>) -> Result<ModuleValue<V>, Seq<char>> {
        let parts = split_pieces(path, seq![':']);
        if parts.len() == 0 {
            Err("Empty module path"@)
        } else {
            match self.module_named(parts[0]) {
                None => Err(module_not_found(parts[0])),
                Some(root) => match descend(root, parts, 1, join_with(parts.take(parts.len() - 1), seq![':'])) {
                    Err(msg) => Err(msg),
                    Ok(module) => item_of(module, path, item),
                },
            }
        }
    }

    /// A registry whose only module is the built-in module `std`.
    pub fn new(std_module: ModuleValue<V>) -> (r: Self)
        ensures
            r.builtins_map() == Map::<Seq<char>, ModuleValue<V>>::empty().insert("std"@, std_module),
            r.files_map() == Map::<Seq<char>, ModuleValue<V>>::empty(),
    {
        let mut builtins: Vec<(String, ModuleValue<V>)> = Vec::new();
        builtins.push(("std".to_owned(), std_module));
        let r = ModuleRegistry { builtins, file_modules: Vec::new() };
        proof {
            let bv = r.builtins_view();
            assert(bv[0].0 == "std"@);
            assert(has_key(bv, "std"@));
            assert(r.builtins_map() =~= Map::<Seq<char>, ModuleValue<V>>::empty().insert("std"@, std_module)) by {
                assert forall|k: Seq<char>| #[trigger] has_key(bv, k) <==> k == "std"@ by {
                    if has_key(bv, k) {
                        let i = choose|i: int| 0 <= i < bv.len() && #[trigger] bv[i].0 == k;
                        assert(i == 0);
                    }
                }
                let j = choose|i: int| 0 <= i < bv.len() && #[trigger] bv[i].0 == "std"@;
                assert(j == 0);
            }
            assert(r.files_map() =~= Map::<Seq<char>, ModuleValue<V>>::empty()) by {
                assert forall|k: Seq<char>| !#[trigger] has_key(r.files_view(), k) by {}
            }
        }
        r
    }

    /// This registry with `std_value` as its built-in module `std`.
    pub fn with_custom_std(self, std_value: ModuleValue<V>) -> (r: Self)
        ensures
            r.builtins_map() == self.builtins_map().insert("std"@, std_value),
            r.files_map() == self.files_map(),
    {
        proof {
            use_type_invariant(&self);
        }
        let ModuleRegistry { mut builtins, file_modules } = self;
        let ghost before = bindings_view(builtins@);
        bind(&mut builtins, "std", std_value);
        proof {
            lemma_assoc_set(before, "std"@, std_value);
        }
        let r = ModuleRegistry { builtins, file_modules };
        proof {
            lemma_map_of_set(before, "std"@, std_value);
        }
        r
    }

    /// Register a file-based module.
    pub fn register_file_module(&mut self, name: String, module: ModuleValue<V>)
        ensures
            final(self).files_map() == old(self).files_map().insert(name@, module),
            final(self).builtins_map() == old(self).builtins_map(),
    {
        proof {
            use_type_invariant(&*self);
        }
        let ghost before = bindings_view(self.file_modules@);
        let mut files: Vec<(String, ModuleValue<V>)> = Vec::new();
        std::mem::swap(&mut files, &mut self.file_modules);
        bind(&mut files, name.as_str(), module);
        proof {
            lemma_assoc_set(before, name@, module);
            lemma_map_of_set(before, name@, module);
        }
        self.file_modules = files;
    }

    /// Look up `name` among the built-in and then the file-based modules.
    fn lookup(&self, name: &str) -> (r: Option<&ModuleValue<V>>)
        ensures
            match self.module_named(name@) {
                Some(m) => r matches Some(x) && *x == m,
                None => r is None,
            },
    {
        proof {
            use_type_invariant(self);
        }
        let b = find_binding(&self.builtins, name);
        proof {
            lemma_found(self.builtins@, name@, b);
        }
        match b {
            Some(i) => Some(&self.builtins[i].1),
            None => {
                let f = find_binding(&self.file_modules, name);
                proof {
                    lemma_found(self.file_modules@, name@, f);
                }
                match f {
                    Some(i) => Some(&self.file_modules[i].1),
                    None => None,
                }
            },
        }
    }

    /// Check if a module exists.
    pub fn has_module(&self, name: &str) -> (b: bool)
        ensures
            b == (self.builtins_map().dom().contains(name@) || self.files_map().dom().contains(name@)),
    {
        self.lookup(name).is_some()
    }

    /// Resolve a module by name, checking built-ins first, then file modules.
    pub fn resolve_module(&self, name: &str) -> (r: Result<&ModuleValue<V>, RuntimeError>)
        ensures
            resolves_as(r, match self.module_named(name@) {
                Some(m) => Ok(m),
                None => Err(module_not_found(name@)),
            }),
    {
        match self.lookup(name) {
            Some(m) => Ok(m),
            None => Err(RuntimeError::InvalidOperation { message: quoted("Module '", name, "' not found") }),
        }
    }

    /// Resolve a specific item from a module.
    pub fn resolve_module_item(&self, module_name: &str, item_name: &str) -> (r: Result<&ModuleValue<V>, RuntimeError>)
        ensures
            resolves_as(r, match self.module_named(module_name@) {
                Some(m) => item_of(m, module_name@, item_name@),
                None => Err(module_not_found(module_name@)),
            }),
    {
        match self.resolve_module(module_name) {
            Ok(m) => item_in(m, module_name, item_name),
            Err(e) => Err(e),
        }
    }

    /// Resolve an item of a nested module named by a path such as `std:json`.
    pub fn resolve_nested_module_item(&self, path: &str, item_name: &str) -> (r: Result<&ModuleValue<V>, RuntimeError>)
        ensures
            resolves_as(r, self.nested_item(path@, item_name@)),
    {
        let parts = split_str(path, ":");
        proof {
            reveal_strlit(":");
            assert(":"@ =~= seq![':']);
        }
        if parts.len() == 0 {
            return Err(RuntimeError::InvalidOperation { message: "Empty module path".to_owned() });
        }
        let root = match self.lookup(parts[0].as_str()) {
            Some(m) => m,
            None => {
                return Err(RuntimeError::InvalidOperation { message: quoted("Module '", parts[0].as_str(), "' not found") });
            },
        };
        let ghost pv = strings_view(parts@);
        let mut prefix_parts: Vec<String> = Vec::new();
        let mut j: usize = 0;
        let last = parts.len() - 1;
        while j < last
            invariant
                pv == strings_view(parts@),
                last == pv.len() - 1,
                pv.len() > 0,
                j < pv.len(),
                strings_view(prefix_parts@) =~= pv.take(j as int),
            decreases pv.len() - j,
        {
            prefix_parts.push(parts[j].clone());
            assert(pv.take(j + 1) =~= pv.take(j as int).push(pv[j as int]));
            j = j + 1;
        }
        let prefix = join_strings(&prefix_parts, ":");
        let ghost gprefix = join_with(pv.take(pv.len() - 1), seq![':']);
        assert(prefix@ == gprefix);
        let mut current: &ModuleValue<V> = root;
        let mut i: usize = 1;
        assert(pv[0] == parts@[0]@);
        while i < parts.len()
            invariant
                pv[0] == parts@[0]@,
                pv == split_pieces(path@, seq![':']),
                self.module_named(pv[0]) == Some(*root),
                gprefix == join_with(pv.take(pv.len() - 1), seq![':']),
                pv == strings_view(parts@),
                1 <= i <= pv.len(),
                prefix@ == gprefix,
                descend(*root, pv, 1, gprefix) == descend(*current, pv, i as int, gprefix),
            decreases pv.len() - i,
        {
            match current {
                ModuleValue::Module(entries) => {
                    let found = find_binding(entries, parts[i].as_str());
                    proof {
                        lemma_found_first(entries@, pv[i as int], found);
                    }
                    match found {
                        Some(k) => match &entries[k].1 {
                            ModuleValue::Module(_) => {
                                current = &entries[k].1;
                            },
                            ModuleValue::Item(_) => {
                                let mut m = quoted("'", parts[i].as_str(), "' is not a module in '");
                                m.append(prefix.as_str());
                                m.append("'");
                                return Err(RuntimeError::InvalidOperation { message: m });
                            },
                        },
                        None => {
                            let mut m = quoted("Module '", parts[i].as_str(), "' not found in '");
                            m.append(prefix.as_str());
                            m.append("'");
                            return Err(RuntimeError::InvalidOperation { message: m });
                        },
                    }
                },
                ModuleValue::Item(_) => {
                    return Err(RuntimeError::InvalidOperation {
                        message: quoted("'", parts[0].as_str(), "' is not a valid module (not a map)"),
                    });
                },
            }
            i = i + 1;
        }
        item_in(current, path, item_name)
    }
}

impl<V> ModuleRegistry<V> {
    /// A module registered under `name` is what `name` then resolves to,
    /// unless a built-in module has that name: built-in modules come first.
    /// Other names resolve as before.
    pub proof fn lemma_registered_module_resolves(before: Self, after: Self, name: Seq<char>, module: ModuleValue<V>, other: Seq<char>)
        requires
            after.files_map() == before.files_map().insert(name, module),
            after.builtins_map() == before.builtins_map(),
        ensures
            after.module_named(name) == if before.builtins_map().dom().contains(name) {
                Some(before.builtins_map()[name])
            } else {
                Some(module)
            },
            other != name ==> after.module_named(other) == before.module_named(other),
    {
    }

    /// With a custom `std` module, `std` resolves to it; other names resolve as before.
    pub proof fn lemma_custom_std_resolves(before: Self, after: Self, std_value: ModuleValue<V>, other: Seq<char>)
        requires
            after.builtins_map() == before.builtins_map().insert("std"@, std_value),
            after.files_map() == before.files_map(),
        ensures
            after.module_named("std"@) == Some(std_value),
            other != "std"@ ==> after.module_named(other) == before.module_named(other),
    {
    }
}

/// `head`, `middle` and `tail`, one after the other.
fn quoted(head: &str, middle: &str, tail: &str) -> (m: String)
    ensures
        m@ == head@ + middle@ + tail@,
{
    let mut m = head.to_owned();
    m.append(middle);
    m.append(tail);
    m
}

/// The item `item_name` of `module`, `path` naming the module in messages.
fn item_in<'a, V>(module: &'a ModuleValue<V>, path: &str, item_name: &str) -> (r: Result<&'a ModuleValue<V>, RuntimeError>)
    ensures
        resolves_as(r, item_of(*module, path@, item_name@)),
{
    match module {
        ModuleValue::Module(entries) => {
            let found = find_binding(entries, item_name);
            proof {
                lemma_found_first(entries@, item_name@, found);
            }
            match found {
                Some(k) => Ok(&entries[k].1),
                None => {
                    let mut m = quoted("Item '", item_name, "' not found in module '");
                    m.append(path);
                    m.append("'");
                    Err(RuntimeError::InvalidOperation { message: m })
                },
            }
        },
        ModuleValue::Item(_) => Err(RuntimeError::InvalidOperation {
            message: quoted("Module '", path, "' is not a valid module (not a map)"),
        }),
    }
}

proof fn lemma_found_first<X>(v: Seq<(String, X)>, key: Seq<char>, r: Option<usize>)
    requires
        r matches Some(i) ==> i < v.len() && v[i as int].0@ == key
            && forall|j: int| 0 <= j < i ==> #[trigger] v[j].0@ != key,
        r is None ==> forall|i: int| 0 <= i < v.len() ==> #[trigger] v[i].0@ != key,
    ensures
        match r {
            Some(i) => first_with_key(bindings_view(v), key) == Some(v[i as int].1),
            None => first_with_key(bindings_view(v), key) is None,
        },
{
    let bv = bindings_view(v);
    match r {
        Some(i) => {
            assert forall|j: int| 0 <= j < i implies #[trigger] bv[j].0 != key by {
                assert(v[j].0@ != key);
            }
            lemma_first_with_key(bv, key, i as int);
        },
        None => {
            if has_key(bv, key) {
                let i = choose|i: int| 0 <= i < bv.len() && #[trigger] bv[i].0 == key;
                assert(v[i].0@ != key);
            }
        },
    }
}

proof fn lemma_found<X>(v: Seq<(String, X)>, key: Seq<char>, r: Option<usize>)
    requires
        keys_distinct(bindings_view(v)),
        r matches Some(i) ==> i < v.len() && v[i as int].0@ == key,
        r is None ==> forall|i: int| 0 <= i < v.len() ==> #[trigger] v[i].0@ != key,
    ensures
        r matches Some(i) ==> has_key(bindings_view(v), key) && assoc_get(bindings_view(v), key) == Some(v[i as int].1),
        r is None ==> !has_key(bindings_view(v), key),
{
    let bv = bindings_view(v);
    match r {
        Some(i) => {
            assert(bv[i as int].0 == key);
            crate::assoc::lemma_assoc_get_at(bv, i as int);
        },
        None => {
            if has_key(bv, key) {
                let i = choose|i: int| 0 <= i < bv.len() && #[trigger] bv[i].0 == key;
                assert(v[i].0@ != key);
            }
        },
    }
}

proof fn lemma_map_of_set<X>(s: Seq<(Seq<char>, X)>, k: Seq<char>, v: X)
    requires
        keys_distinct(s),
    ensures
        Map::new(|x: Seq<char>| has_key(assoc_set(s, k, v), x), |x: Seq<char>| assoc_get(assoc_set(s, k, v), x)->0)
            == Map::new(|x: Seq<char>| has_key(s, x), |x: Seq<char>| assoc_get(s, x)->0).insert(k, v),
{
    lemma_assoc_set(s, k, v);
    let t = assoc_set(s, k, v);
    assert(Map::new(|x: Seq<char>| has_key(t, x), |x: Seq<char>| assoc_get(t, x)->0)
        =~= Map::new(|x: Seq<char>| has_key(s, x), |x: Seq<char>| assoc_get(s, x)->0).insert(k, v)) by {
        assert forall|x: Seq<char>| #[trigger] has_key(t, x) <==> (has_key(s, x) || x == k) by {
            if has_key(t, x) {
                assert(assoc_get(t, x) is Some);
            }
            if has_key(s, x) || x == k {
                assert(assoc_get(t, x) is Some);
            }
        }
    }
}

} // verus!
