//! The methods of map values: `delete`, `contains`, `keys`, `values`,
//! `to_list` and `length`, on maps that keep their entries in insertion order.

use vstd::prelude::*;
use crate::error::RuntimeError;
use crate::text::str_eq;

verus! {

/// A map key, as the language compares keys: numbers by the bits of their
/// floating-point representation.
#[derive(Debug)]
pub enum MapKey {
    /// A number, by its bits.
    Number(u64),
    /// A boolean.
    Boolean(bool),
    /// A string.
    Str(String),
    /// A tuple of keys.
    Tuple(Vec<MapKey>),
}

/// Two keys are the same key.
pub open spec fn same_key(a: MapKey, b: MapKey) -> bool
    decreases a, 0nat,
{
    match (a, b) {
        (MapKey::Number(x), MapKey::Number(y)) => x == y,
        (MapKey::Boolean(x), MapKey::Boolean(y)) => x == y,
        (MapKey::Str(x), MapKey::Str(y)) => x@ == y@,
        (MapKey::Tuple(xs), MapKey::Tuple(ys)) => xs@.len() == ys@.len() && same_items(xs@, ys@, 0),
        _ => false,
    }
}

/// The keys of `xs` and `ys` from position `i` on are the same, pairwise.
pub open spec fn same_items(xs: Seq<MapKey>, ys: Seq<MapKey>, i: int) -> bool
    decreases xs, xs.len() - i,
{
    if 0 <= i < xs.len() {
        same_key(xs[i], ys[i]) && same_items(xs, ys, i + 1)
    } else {
        true
    }
}

proof fn lemma_same_items(xs: Seq<MapKey>, ys: Seq<MapKey>, i: int)
    requires
        0 <= i <= xs.len(),
    ensures
        same_items(xs, ys, i) <==> forall|j: int| i <= j < xs.len() ==> #[trigger] same_key(xs[j], ys[j]),
    decreases xs.len() - i,
{
    if i < xs.len() {
        lemma_same_items(xs, ys, i + 1);
        assert(same_items(xs, ys, i) == (same_key(xs[i], ys[i]) && same_items(xs, ys, i + 1)));
    } else {
        assert(same_items(xs, ys, i));
    }
}

/// Sameness of keys is symmetric.
pub proof fn lemma_same_key_symmetric(a: MapKey, b: MapKey)
    ensures
        same_key(a, b) ==> same_key(b, a),
    decreases a, 0nat,
{
    match (a, b) {
        (MapKey::Tuple(xs), MapKey::Tuple(ys)) => {
            if xs@.len() == ys@.len() {
                assert(decreases_to!(a => a->Tuple_0));
                assert(decreases_to!(a->Tuple_0 => xs@));
                lemma_items_symmetric(xs@, ys@, 0);
            }
        },
        _ => {},
    }
}

proof fn lemma_items_symmetric(xs: Seq<MapKey>, ys: Seq<MapKey>, i: int)
    requires
        xs.len() == ys.len(),
        0 <= i <= xs.len(),
    ensures
        same_items(xs, ys, i) ==> same_items(ys, xs, i),
    decreases xs, xs.len() - i,
{
    if i < xs.len() {
        assert(decreases_to!(xs => xs[i]));
        lemma_same_key_symmetric(xs[i], ys[i]);
        lemma_items_symmetric(xs, ys, i + 1);
    }
}

/// Whether two keys are the same key.
pub fn key_eq(a: &MapKey, b: &MapKey) -> (r: bool)
    ensures
        r == same_key(*a, *b),
    decreases a,
{
    match (a, b) {
        (MapKey::Number(x), MapKey::Number(y)) => *x == *y,
        (MapKey::Boolean(x), MapKey::Boolean(y)) => *x == *y,
        (MapKey::Str(x), MapKey::Str(y)) => str_eq(x.as_str(), y.as_str()),
        (MapKey::Tuple(xs), MapKey::Tuple(ys)) => {
            if xs.len() != ys.len() {
                return false;
            }
            let mut i: usize = 0;
            while i < xs.len()
                invariant
                    *a == MapKey::Tuple(*xs),
                    *b == MapKey::Tuple(*ys),
                    xs@.len() == ys@.len(),
                    i <= xs@.len(),
                    forall|j: int| 0 <= j < i ==> #[trigger] same_key(xs@[j], ys@[j]),
                decreases xs@.len() - i,
            {
                proof {
                    assert(decreases_to!(*a => (*a)->Tuple_0));
                    assert((*a)->Tuple_0 == *xs);
                    assert(decreases_to!(*xs => xs@));
                    assert(decreases_to!(xs@ => xs@[i as int]));
                }
                if !key_eq(&xs[i], &ys[i]) {
                    proof {
                        lemma_same_items(xs@, ys@, 0);
                    }
                    return false;
                }
                i = i + 1;
            }
            proof {
                lemma_same_items(xs@, ys@, 0);
            }
            true
        },
        _ => false,
    }
}

/// A copy of a key.
pub fn copy_key(k: &MapKey) -> (r: MapKey)
    ensures
        same_key(r, *k),
    decreases k,
{
    match k {
        MapKey::Number(x) => MapKey::Number(*x),
        MapKey::Boolean(x) => MapKey::Boolean(*x),
        MapKey::Str(x) => MapKey::Str(x.clone()),
        MapKey::Tuple(xs) => {
            let mut ys: Vec<MapKey> = Vec::new();
            let mut i: usize = 0;
            while i < xs.len()
                invariant
                    *k == MapKey::Tuple(*xs),
                    i <= xs@.len(),
                    ys@.len() == i,
                    forall|j: int| 0 <= j < i ==> #[trigger] same_key(ys@[j], xs@[j]),
                decreases xs@.len() - i,
            {
                proof {
                    assert(decreases_to!(*k => (*k)->Tuple_0));
                    assert((*k)->Tuple_0 == *xs);
                    assert(decreases_to!(*xs => xs@));
                    assert(decreases_to!(xs@ => xs@[i as int]));
                    assert(decreases_to!(*k => xs@[i as int]));
                }
                let c = copy_key(&xs[i]);
                ys.push(c);
                i = i + 1;
            }
            let r = MapKey::Tuple(ys);
            proof {
                lemma_same_items(r->Tuple_0@, (*k)->Tuple_0@, 0);
            }
            r
        },
    }
}

/// The first entry, from position `i` on, whose key is `k`.
pub open spec fn find_key_from<V>(e: Seq<(MapKey, V)>, k: MapKey, i: int) -> Option<int>
    decreases e.len() - i,
{
    if i < 0 || i >= e.len() {
        None
    } else if same_key(e[i].0, k) {
        Some(i)
    } else {
        find_key_from(e, k, i + 1)
    }
}

/// The entry whose key is `k`.
pub open spec fn find_key<V>(e: Seq<(MapKey, V)>, k: MapKey) -> Option<int> {
    find_key_from(e, k, 0)
}

proof fn lemma_find_key_none<V>(e: Seq<(MapKey, V)>, k: MapKey, i: int)
    requires
        0 <= i,
        find_key_from(e, k, i) is None,
    ensures
        forall|j: int| i <= j < e.len() ==> !same_key(#[trigger] e[j].0, k),
    decreases e.len() - i,
{
    if i < e.len() {
        lemma_find_key_none(e, k, i + 1);
    }
}

proof fn lemma_find_key_from<V>(e: Seq<(MapKey, V)>, k: MapKey, i: int)
    requires
        0 <= i,
    ensures
        find_key_from(e, k, i) matches Some(j) ==> i <= j < e.len() && same_key(e[j].0, k),
    decreases e.len() - i,
{
    if i < e.len() && !same_key(e[i].0, k) {
        lemma_find_key_from(e, k, i + 1);
    }
}

/// No two entries have the same key.
pub open spec fn distinct_keys<V>(e: Seq<(MapKey, V)>) -> bool {
    forall|i: int, j: int| 0 <= i < e.len() && 0 <= j < e.len() && i != j ==> !same_key(#[trigger] e[i].0, #[trigger] e[j].0)
}

/// A map value: its entries in insertion order.
#[derive(Debug)]
pub struct MapEntries<V> {
    entries: Vec<(MapKey, V)>,
}

impl<V> MapEntries<V> {
    /// The entries, in insertion order.
    pub closed spec fn entries(&self) -> Seq<(MapKey, V)> {
        self.entries@
    }

    #[verifier::type_invariant]
    closed spec fn wf(&self) -> bool {
        distinct_keys(self.entries@)
    }

    /// An empty map.
    pub fn new() -> (r: Self)
        ensures
            r.entries() == Seq::<(MapKey, V)>::empty(),
            distinct_keys(r.entries()),
    {
        MapEntries { entries: Vec::new() }
    }

    /// The position of the entry whose key is `k`.
    fn position(&self, k: &MapKey) -> (r: Option<usize>)
        ensures
            match r {
                Some(i) => find_key(self.entries(), *k) == Some(i as int),
                None => find_key(self.entries(), *k) is None,
            },
    {
        let mut i: usize = 0;
        while i < self.entries.len()
            invariant
                i <= self.entries@.len(),
                find_key(self.entries(), *k) == find_key_from(self.entries(), *k, i as int),
            decreases self.entries@.len() - i,
        {
            if key_eq(&self.entries[i].0, k) {
                return Some(i);
            }
            i = i + 1;
        }
        None
    }

    /// Set the value of `k`: in place when the map has the key, keeping its
    /// position, or as a new last entry.
    pub fn insert(&mut self, k: MapKey, v: V)
        ensures
            match find_key(old(self).entries(), k) {
                Some(i) => final(self).entries() == old(self).entries().update(i, (old(self).entries()[i].0, v)),
                None => final(self).entries() == old(self).entries().push((k, v)),
            },
            distinct_keys(final(self).entries()),
    {
        proof {
            use_type_invariant(&*self);
        }
        match self.position(&k) {
            Some(i) => {
                proof {
                    lemma_find_key_from(self.entries(), k, 0);
                }
                let mut entries: Vec<(MapKey, V)> = Vec::new();
                std::mem::swap(&mut entries, &mut self.entries);
                let (old_key, _) = entries.remove(i);
                entries.insert(i, (old_key, v));
                self.entries = entries;
                assert(self.entries() =~= old(self).entries().update(i as int, (old(self).entries()[i as int].0, v)));
            },
            None => {
                proof {
                    lemma_find_key_none(self.entries(), k, 0);
                    assert forall|j: int| 0 <= j < self.entries@.len() implies !same_key(k, #[trigger] self.entries@[j].0) by {
                        lemma_same_key_symmetric(k, self.entries@[j].0);
                    }
                }
                let mut entries: Vec<(MapKey, V)> = Vec::new();
                std::mem::swap(&mut entries, &mut self.entries);
                entries.push((k, v));
                self.entries = entries;
            },
        }
    }
}

/// An argument of a map method, as the methods read it.
#[derive(Debug)]
pub enum MapArg {
    /// A value that can be a key, as that key.
    Key(MapKey),
    /// A value that cannot be a key, by its type name.
    NotKey(String),
}

/// What a map method returns.
#[derive(Debug)]
pub enum MapValue<V> {
    /// A boolean.
    Bool(bool),
    /// A count.
    Count(usize),
    /// A list of keys.
    Keys(Vec<MapKey>),
    /// A list of values.
    Values(Vec<V>),
    /// A list of key and value pairs.
    Pairs(Vec<(MapKey, V)>),
}

/// `ks` are copies of the keys of `e`, in order.
pub open spec fn keys_of<V>(ks: Seq<MapKey>, e: Seq<(MapKey, V)>) -> bool {
    &&& ks.len() == e.len()
    &&& forall|i: int| 0 <= i < e.len() ==> #[trigger] same_key(ks[i], e[i].0)
}

/// `vs` are clones of the values of `e`, in order.
pub open spec fn values_of<V: Clone>(vs: Seq<V>, e: Seq<(MapKey, V)>) -> bool {
    &&& vs.len() == e.len()
    &&& forall|i: int| 0 <= i < e.len() ==> cloned(e[i].1, #[trigger] vs[i])
}

/// `ps` are copies of the entries of `e`, in order.
pub open spec fn pairs_of<V: Clone>(ps: Seq<(MapKey, V)>, e: Seq<(MapKey, V)>) -> bool {
    &&& ps.len() == e.len()
    &&& forall|i: int| 0 <= i < e.len() ==> same_key(#[trigger] ps[i].0, e[i].0) && cloned(e[i].1, ps[i].1)
}

/// The key argument of `delete` or `contains`: its arity error, or the
/// error of a value that cannot be a key, or the key.
pub open spec fn key_arg_gives<V>(r: Result<MapValue<V>, RuntimeError>, args: Seq<MapArg>, name: Seq<char>, ok: spec_fn(MapKey) -> bool) -> bool {
    if args.len() != 1 {
        r matches Err(RuntimeError::ArityMismatch { message }) && message@ == name + "() takes exactly one argument"@
    } else {
        match args[0] {
            MapArg::Key(k) => ok(k),
            MapArg::NotKey(t) => r matches Err(RuntimeError::InvalidKeyType { message }) && message@ == t@ + " cannot be used as a map key"@,
        }
    }
}

/// A method of no arguments: its error when given some, else what `ok` says.
pub open spec fn map_no_arg<V>(r: Result<MapValue<V>, RuntimeError>, args: Seq<MapArg>, name: Seq<char>, ok: bool) -> bool {
    if args.len() != 0 {
        r matches Err(RuntimeError::MapMethodError { method, message }) && method@ == name
            && message@ == name + "() takes no arguments"@
    } else {
        ok
    }
}

/// What the map method `method` gives with `args`, and the map it leaves,
/// `before` being the map's entries when it was called.
pub open spec fn map_method_gives<V: Clone>(
    r: Result<MapValue<V>, RuntimeError>,
    before: Seq<(MapKey, V)>,
    after: Seq<(MapKey, V)>,
    method: Seq<char>,
    args: Seq<MapArg>,
) -> bool {
    if method == "delete"@ {
        key_arg_gives(r, args, method, |k: MapKey| match find_key(before, k) {
            Some(i) => r matches Ok(MapValue::Bool(b)) && b && after == before.remove(i),
            None => r matches Ok(MapValue::Bool(b)) && !b && after == before,
        }) && (!(args.len() == 1 && args[0] is Key) ==> after == before)
    } else {
        &&& after == before
        &&& if method == "contains"@ {
            key_arg_gives(r, args, method, |k: MapKey| r matches Ok(MapValue::Bool(b)) && b == find_key(before, k) is Some)
        } else if method == "keys"@ {
            map_no_arg(r, args, method, r matches Ok(MapValue::Keys(ks)) && keys_of(ks@, before))
        } else if method == "values"@ {
            map_no_arg(r, args, method, r matches Ok(MapValue::Values(vs)) && values_of(vs@, before))
        } else if method == "to_list"@ {
            map_no_arg(r, args, method, r matches Ok(MapValue::Pairs(ps)) && pairs_of(ps@, before))
        } else if method == "length"@ {
            map_no_arg(r, args, method, r matches Ok(MapValue::Count(n)) && n == before.len())
        } else {
            r matches Err(RuntimeError::MethodError { message }) && message@ == "Map has no method '"@ + method + "'"@
        }
    }
}

fn no_args_error(method: &str) -> (e: RuntimeError)
    ensures
        e matches RuntimeError::MapMethodError { method: m, message } && m@ == method@
            && message@ == method@ + "() takes no arguments"@,
{
    let mut message = method.to_owned();
    message.append("() takes no arguments");
    RuntimeError::MapMethodError { method: method.to_owned(), message }
}

/// The key that `args` give to `delete` or `contains`.
fn key_arg<'a>(args: &'a Vec<MapArg>, method: &str) -> (r: Result<&'a MapKey, RuntimeError>)
    ensures
        args@.len() != 1 ==> (r matches Err(RuntimeError::ArityMismatch { message })
            && message@ == method@ + "() takes exactly one argument"@),
        args@.len() == 1 ==> match args@[0] {
            MapArg::Key(k) => r matches Ok(x) && *x == k,
            MapArg::NotKey(t) => r matches Err(RuntimeError::InvalidKeyType { message })
                && message@ == t@ + " cannot be used as a map key"@,
        },
{
    if args.len() != 1 {
        let mut message = method.to_owned();
        message.append("() takes exactly one argument");
        return Err(RuntimeError::ArityMismatch { message });
    }
    match &args[0] {
        MapArg::Key(k) => Ok(k),
        MapArg::NotKey(t) => {
            let mut message = t.clone();
            message.append(" cannot be used as a map key");
            Err(RuntimeError::InvalidKeyType { message })
        },
    }
}

impl<V: Clone> MapEntries<V> {
    fn key_list(&self) -> (r: Vec<MapKey>)
        ensures
            keys_of(r@, self.entries()),
    {
        let mut r: Vec<MapKey> = Vec::new();
        let mut i: usize = 0;
        while i < self.entries.len()
            invariant
                i <= self.entries@.len(),
                r@.len() == i,
                forall|j: int| 0 <= j < i ==> #[trigger] same_key(r@[j], self.entries@[j].0),
            decreases self.entries@.len() - i,
        {
            r.push(copy_key(&self.entries[i].0));
            i = i + 1;
        }
        r
    }

    fn value_list(&self) -> (r: Vec<V>)
        ensures
            values_of(r@, self.entries()),
    {
        let mut r: Vec<V> = Vec::new();
        let mut i: usize = 0;
        while i < self.entries.len()
            invariant
                i <= self.entries@.len(),
                r@.len() == i,
                forall|j: int| 0 <= j < i ==> cloned(self.entries@[j].1, #[trigger] r@[j]),
            decreases self.entries@.len() - i,
        {
            r.push(self.entries[i].1.clone());
            i = i + 1;
        }
        r
    }

    fn pair_list(&self) -> (r: Vec<(MapKey, V)>)
        ensures
            pairs_of(r@, self.entries()),
    {
        let mut r: Vec<(MapKey, V)> = Vec::new();
        let mut i: usize = 0;
        while i < self.entries.len()
            invariant
                i <= self.entries@.len(),
                r@.len() == i,
                forall|j: int| 0 <= j < i ==> same_key(#[trigger] r@[j].0, self.entries@[j].0)
                    && cloned(self.entries@[j].1, r@[j].1),
            decreases self.entries@.len() - i,
        {
            let k = copy_key(&self.entries[i].0);
            let v = self.entries[i].1.clone();
            r.push((k, v));
            i = i + 1;
        }
        r
    }
}

/// Call the map method `method` on `map` with `args`.
pub fn call_map_method<V: Clone>(map: &mut MapEntries<V>, method: &str, args: Vec<MapArg>) -> (r: Result<MapValue<V>, RuntimeError>)
    ensures
        map_method_gives(r, old(map).entries(), final(map).entries(), method@, args@),
        distinct_keys(final(map).entries()),
{
    proof {
        use_type_invariant(&*map);
    }
    if str_eq(method, "delete") {
        match key_arg(&args, method) {
            Ok(k) => match map.position(k) {
                Some(i) => {
                    proof {
                        use_type_invariant(&*map);
                        lemma_find_key_from(map.entries(), *k, 0);
                        assert forall|a: int, b: int| 0 <= a < map.entries@.len() - 1 && 0 <= b < map.entries@.len() - 1 && a != b
                            implies !same_key(#[trigger] map.entries@.remove(i as int)[a].0, #[trigger] map.entries@.remove(i as int)[b].0) by {
                            let a2 = if a < i { a } else { a + 1 };
                            let b2 = if b < i { b } else { b + 1 };
                            assert(map.entries@.remove(i as int)[a] == map.entries@[a2]);
                            assert(map.entries@.remove(i as int)[b] == map.entries@[b2]);
                        }
                    }
                    let mut entries: Vec<(MapKey, V)> = Vec::new();
                    std::mem::swap(&mut entries, &mut map.entries);
                    entries.remove(i);
                    map.entries = entries;
                    Ok(MapValue::Bool(true))
                },
                None => Ok(MapValue::Bool(false)),
            },
            Err(e) => Err(e),
        }
    } else if str_eq(method, "contains") {
        match key_arg(&args, method) {
            Ok(k) => Ok(MapValue::Bool(map.position(k).is_some())),
            Err(e) => Err(e),
        }
    } else if str_eq(method, "keys") {
        if args.len() != 0 {
            return Err(no_args_error(method));
        }
        Ok(MapValue::Keys(map.key_list()))
    } else if str_eq(method, "values") {
        if args.len() != 0 {
            return Err(no_args_error(method));
        }
        Ok(MapValue::Values(map.value_list()))
    } else if str_eq(method, "to_list") {
        if args.len() != 0 {
            return Err(no_args_error(method));
        }
        Ok(MapValue::Pairs(map.pair_list()))
    } else if str_eq(method, "length") {
        if args.len() != 0 {
            return Err(no_args_error(method));
        }
        Ok(MapValue::Count(map.entries.len()))
    } else {
        let mut m = "Map has no method '".to_owned();
        m.append(method);
        m.append("'");
        Err(RuntimeError::MethodError { message: m })
    }
}

} // verus!
