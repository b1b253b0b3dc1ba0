//! The methods of the environment map value: `contains`, `get`, `keys`,
//! `values`, `to_list`, `length`, `delete`, `merge` and `to_string`, on an
//! environment overlay.

use vstd::prelude::*;
use crate::env_overlay::{pairs_view, set_refusal, EnvProxy};
use crate::assoc::{assoc_keys, assoc_values};
use crate::error::RuntimeError;
use crate::str_ops::join_with;
use crate::text::{str_eq, strings_view};

verus! {

/// An argument of an environment map method, as the methods read it.
#[derive(Debug, Clone, PartialEq)]
pub enum EnvArg<V> {
    /// A string.
    Str(String),
    /// A map: its entries in order, each with its key when the key is a
    /// string (`None` for a key of another kind) and the text of its value.
    MapEntries(Vec<(Option<String>, String)>),
    /// A value of any other kind.
    Other(V),
}

/// What an environment map method returns.
#[derive(Debug, Clone, PartialEq)]
pub enum EnvMapValue<V> {
    /// A boolean.
    Bool(bool),
    /// A string.
    Str(String),
    /// A count.
    Count(usize),
    /// A list of strings.
    List(Vec<String>),
    /// A list of name and value pairs.
    Pairs(Vec<(String, String)>),
    /// The default that was given to `get`, handed back.
    Given(EnvArg<V>),
    /// No value.
    Nil,
    /// The environment map itself.
    Env,
}

/// Map entries by their characters.
pub open spec fn entries_chars(v: Seq<(Option<String>, String)>) -> Seq<(Option<Seq<char>>, Seq<char>)> {
    v.map_values(|p: (Option<String>, String)| (
        match p.0 {
            Some(k) => Some(k@),
            None => None,
        },
        p.1@,
    ))
}

/// `merge` cannot set this entry: its key is not a string, or `set` refuses it.
pub open spec fn entry_fails(p: (Option<Seq<char>>, Seq<char>)) -> bool {
    match p.0 {
        Some(k) => set_refusal(k, p.1) is Some,
        None => true,
    }
}

/// The first entry, from position `i` on, that `merge` cannot set.
pub open spec fn first_failure(e: Seq<(Option<Seq<char>>, Seq<char>)>, i: int) -> Option<int>
    decreases e.len() - i,
{
    if i < 0 || i >= e.len() {
        None
    } else if entry_fails(e[i]) {
        Some(i)
    } else {
        first_failure(e, i + 1)
    }
}

/// How many entries `merge` sets: those before the first it cannot set.
pub open spec fn merge_count(e: Seq<(Option<Seq<char>>, Seq<char>)>) -> int {
    match first_failure(e, 0) {
        Some(i) => i,
        None => e.len() as int,
    }
}

/// The variables `m` with the entries `e` set in order.
pub open spec fn merged(m: Map<Seq<char>, Seq<char>>, e: Seq<(Option<Seq<char>>, Seq<char>)>) -> Map<Seq<char>, Seq<char>>
    decreases e.len(),
{
    if e.len() == 0 {
        m
    } else {
        merged(m, e.drop_last()).insert(e.last().0->0, e.last().1)
    }
}

/// The overlay `o` with the entries `e` recorded in order.
pub open spec fn merged_overlay(
    o: Map<Seq<char>, Option<Seq<char>>>,
    e: Seq<(Option<Seq<char>>, Seq<char>)>,
) -> Map<Seq<char>, Option<Seq<char>>>
    decreases e.len(),
{
    if e.len() == 0 {
        o
    } else {
        merged_overlay(o, e.drop_last()).insert(e.last().0->0, Some(e.last().1))
    }
}

/// A variable as `to_string` writes it.
pub open spec fn pair_text(p: (Seq<char>, Seq<char>)) -> Seq<char> {
    p.0 + ": "@ + p.1
}

/// The variables `pairs` as `to_string` writes them: in braces, separated by
/// commas.
pub open spec fn env_text(pairs: Seq<(Seq<char>, Seq<char>)>) -> Seq<char> {
    "{"@ + join_with(pairs.map_values(|p: (Seq<char>, Seq<char>)| pair_text(p)), ", "@) + "}"@
}

/// `r` is an arity error with the message `msg`.
pub open spec fn env_arity_error<V>(r: Result<EnvMapValue<V>, RuntimeError>, msg: Seq<char>) -> bool {
    r matches Err(RuntimeError::ArityMismatch { message }) && message@ == msg
}

/// `r` is a type error with the message `msg`.
pub open spec fn env_type_error<V>(r: Result<EnvMapValue<V>, RuntimeError>, msg: Seq<char>) -> bool {
    r matches Err(RuntimeError::TypeError { message }) && message@ == msg
}

/// The result and the environment after a method that takes no arguments,
/// changes nothing and gives what `ok` says.
pub open spec fn env_no_arg<V>(
    r: Result<EnvMapValue<V>, RuntimeError>,
    before: EnvProxy,
    after: EnvProxy,
    args: Seq<EnvArg<V>>,
    name: Seq<char>,
    ok: bool,
) -> bool {
    &&& after == before
    &&& if args.len() != 0 {
        env_arity_error(r, name + "() takes no arguments"@)
    } else {
        ok
    }
}

/// What `merge` gives and does, the argument being `args[0]`.
pub open spec fn merge_gives<V>(
    r: Result<EnvMapValue<V>, RuntimeError>,
    before: EnvProxy,
    after: EnvProxy,
    args: Seq<EnvArg<V>>,
) -> bool {
    if args.len() != 1 {
        after == before && env_arity_error(r, "merge() takes exactly one argument"@)
    } else {
        match args[0] {
            EnvArg::MapEntries(entries) => {
                let e = entries_chars(entries@);
                &&& after@ == merged(before@, e.take(merge_count(e)))
                &&& after.overlay_map() == merged_overlay(before.overlay_map(), e.take(merge_count(e)))
                &&& after.base_map() == before.base_map()
                &&& match first_failure(e, 0) {
                    Some(i) => match e[i].0 {
                        Some(k) => r matches Err(RuntimeError::InvalidOperation { message })
                            && message@ == set_refusal(k, e[i].1)->0,
                        None => env_type_error(r, "Environment keys must be strings"@),
                    },
                    None => r matches Ok(EnvMapValue::Env),
                }
            },
            _ => after == before && env_type_error(r, "merge() argument must be a map"@),
        }
    }
}

/// What `get` gives.
pub open spec fn get_gives<V>(
    r: Result<EnvMapValue<V>, RuntimeError>,
    before: EnvProxy,
    args: Seq<EnvArg<V>>,
) -> bool {
    if args.len() == 0 || args.len() > 2 {
        env_arity_error(r, "get() takes one or two arguments"@)
    } else {
        match args[0] {
            EnvArg::Str(k) => match before@.get(k@) {
                Some(v) => r matches Ok(EnvMapValue::Str(x)) && x@ == v,
                None => if args.len() == 2 {
                    r matches Ok(EnvMapValue::Given(a)) && a == args[1]
                } else {
                    r matches Ok(EnvMapValue::Nil)
                },
            },
            _ => env_type_error(r, "Environment keys must be strings"@),
        }
    }
}

/// What the environment map method `method` gives with `args`, and the
/// environment it leaves, `before` being the environment it was called on.
pub open spec fn env_method_gives<V>(
    r: Result<EnvMapValue<V>, RuntimeError>,
    before: EnvProxy,
    after: EnvProxy,
    method: Seq<char>,
    args: Seq<EnvArg<V>>,
) -> bool {
    if method == "contains"@ {
        &&& after == before
        &&& if args.len() != 1 {
            env_arity_error(r, "contains() takes exactly one argument"@)
        } else {
            match args[0] {
                EnvArg::Str(k) => r matches Ok(EnvMapValue::Bool(b)) && b == before@.contains_key(k@),
                _ => env_type_error(r, "Environment keys must be strings"@),
            }
        }
    } else if method == "get"@ {
        after == before && get_gives(r, before, args)
    } else if method == "keys"@ {
        env_no_arg(r, before, after, args, method, r matches Ok(EnvMapValue::List(ks)) && {
            &&& strings_view(ks@).no_duplicates()
            &&& strings_view(ks@).to_set() == before@.dom()
            &&& exists|pairs: Seq<(Seq<char>, Seq<char>)>| before.is_listed_by(pairs) && strings_view(ks@) == assoc_keys(pairs)
        })
    } else if method == "values"@ {
        env_no_arg(r, before, after, args, method, r matches Ok(EnvMapValue::List(vs)) &&
            exists|pairs: Seq<(Seq<char>, Seq<char>)>| before.is_listed_by(pairs) && strings_view(vs@) == assoc_values(pairs))
    } else if method == "to_list"@ {
        env_no_arg(r, before, after, args, method, r matches Ok(EnvMapValue::Pairs(p)) && before.is_listed_by(pairs_view(p@)))
    } else if method == "length"@ {
        env_no_arg(r, before, after, args, method, r matches Ok(EnvMapValue::Count(n)) && n == before@.len())
    } else if method == "delete"@ {
        if args.len() != 1 {
            after == before && env_arity_error(r, "delete() takes exactly one argument"@)
        } else {
            match args[0] {
                EnvArg::Str(k) => {
                    &&& r matches Ok(EnvMapValue::Bool(b)) && b == before@.contains_key(k@)
                    &&& after@ == before@.remove(k@)
                    &&& after.overlay_map() == before.overlay_map().insert(k@, None)
                    &&& after.base_map() == before.base_map()
                },
                _ => after == before && env_type_error(r, "Environment keys must be strings"@),
            }
        }
    } else if method == "merge"@ {
        merge_gives(r, before, after, args)
    } else if method == "to_string"@ {
        env_no_arg(r, before, after, args, method, r matches Ok(EnvMapValue::Str(t)) &&
            exists|pairs: Seq<(Seq<char>, Seq<char>)>| before.is_listed_by(pairs) && t@ == env_text(pairs))
    } else {
        &&& after == before
        &&& r matches Err(RuntimeError::InvalidOperation { message }) && message@ == "ENV has no method '"@ + method + "'"@
    }
}

fn text_of(s: &str) -> (m: String)
    ensures
        m@ == s@,
{
    s.to_owned()
}

fn key_type_error() -> (e: RuntimeError)
    ensures
        e matches RuntimeError::TypeError { message } && message@ == "Environment keys must be strings"@,
{
    RuntimeError::TypeError { message: text_of("Environment keys must be strings") }
}

fn arity(message: &str) -> (e: RuntimeError)
    ensures
        e matches RuntimeError::ArityMismatch { message: m } && m@ == message@,
{
    RuntimeError::ArityMismatch { message: text_of(message) }
}

fn no_args_error(method: &str) -> (e: RuntimeError)
    ensures
        e matches RuntimeError::ArityMismatch { message } && message@ == method@ + "() takes no arguments"@,
{
    let mut m = method.to_owned();
    m.append("() takes no arguments");
    RuntimeError::ArityMismatch { message: m }
}

/// Set the entries of a map in `env`, in order, stopping at the first that
/// cannot be set.
fn merge_entries<V>(env: &mut EnvProxy, entries: &Vec<(Option<String>, String)>) -> (r: Result<EnvMapValue<V>, RuntimeError>)
    ensures
        ({
            let e = entries_chars(entries@);
            &&& final(env)@ == merged(old(env)@, e.take(merge_count(e)))
            &&& final(env).overlay_map() == merged_overlay(old(env).overlay_map(), e.take(merge_count(e)))
            &&& final(env).base_map() == old(env).base_map()
            &&& match first_failure(e, 0) {
                Some(i) => match e[i].0 {
                    Some(k) => r matches Err(RuntimeError::InvalidOperation { message })
                        && message@ == set_refusal(k, e[i].1)->0,
                    None => r matches Err(RuntimeError::TypeError { message })
                        && message@ == "Environment keys must be strings"@,
                },
                None => r matches Ok(EnvMapValue::Env),
            }
        }),
{
    let ghost e = entries_chars(entries@);
    let ghost start = *env;
    let mut result: Result<EnvMapValue<V>, RuntimeError> = Ok(EnvMapValue::Env);
    let mut i: usize = 0;
    while i < entries.len()
        invariant_except_break
            first_failure(e, 0) == first_failure(e, i as int),
            result matches Ok(EnvMapValue::Env),
        invariant
            e == entries_chars(entries@),
            i <= entries@.len(),
            env@ == merged(start@, e.take(i as int)),
            env.overlay_map() == merged_overlay(start.overlay_map(), e.take(i as int)),
            env.base_map() == start.base_map(),
        ensures
            merge_count(e) == i,
            match first_failure(e, 0) {
                Some(j) => j == i && match e[j].0 {
                    Some(k) => result matches Err(RuntimeError::InvalidOperation { message })
                        && message@ == set_refusal(k, e[j].1)->0,
                    None => result matches Err(RuntimeError::TypeError { message })
                        && message@ == "Environment keys must be strings"@,
                },
                None => result matches Ok(EnvMapValue::Env),
            },
        decreases entries@.len() - i,
    {
        assert(e[i as int] == (match entries@[i as int].0 {
            Some(k) => Some(k@),
            None => None,
        }, entries@[i as int].1@));
        match &entries[i].0 {
            None => {
                assert(first_failure(e, i as int) == Some(i as int));
                result = Err(key_type_error());
                break;
            },
            Some(k) => {
                let set = env.set(k.as_str(), entries[i].1.as_str());
                match set {
                    Err(err) => {
                        assert(first_failure(e, i as int) == Some(i as int));
                        result = Err(err);
                        break;
                    },
                    Ok(()) => {
                        assert(e.take(i + 1).drop_last() =~= e.take(i as int));
                        assert(e.take(i + 1).last() == e[i as int]);
                    },
                }
            },
        }
        i = i + 1;
        if i == entries.len() {
            assert(first_failure(e, i as int) is None);
        }
    }
    proof {
        if first_failure(e, 0) is None {
            assert(e.take(i as int) =~= e);
        }
    }
    result
}

/// The variables of `env` written as `{name: value, ...}`.
fn env_to_string(env: &EnvProxy) -> (t: String)
    ensures
        exists|pairs: Seq<(Seq<char>, Seq<char>)>| env.is_listed_by(pairs) && t@ == env_text(pairs),
{
    let list = env.to_list();
    let ghost texts = pairs_view(list@).map_values(|p: (Seq<char>, Seq<char>)| pair_text(p));
    let mut body = String::new();
    let mut i: usize = 0;
    while i < list.len()
        invariant
            i <= list@.len(),
            texts == pairs_view(list@).map_values(|p: (Seq<char>, Seq<char>)| pair_text(p)),
            body@ == join_with(texts.take(i as int), ", "@),
        decreases list@.len() - i,
    {
        assert(texts.take(i + 1).drop_last() =~= texts.take(i as int));
        assert(texts.take(i + 1).last() == pair_text((list@[i as int].0@, list@[i as int].1@)));
        if i > 0 {
            body.append(", ");
        }
        body.append(list[i].0.as_str());
        body.append(": ");
        body.append(list[i].1.as_str());
        i = i + 1;
    }
    assert(texts.take(list@.len() as int) =~= texts);
    let mut t = text_of("{");
    t.append(body.as_str());
    t.append("}");
    assert(t@ =~= env_text(pairs_view(list@)));
    t
}

/// Call the environment map method `method` on `env` with `args`.
pub fn call_env_map_method<V>(env: &mut EnvProxy, method: &str, args: Vec<EnvArg<V>>) -> (r: Result<EnvMapValue<V>, RuntimeError>)
    ensures
        env_method_gives(r, *old(env), *final(env), method@, args@),
{
    if str_eq(method, "contains") {
        if args.len() != 1 {
            return Err(arity("contains() takes exactly one argument"));
        }
        match &args[0] {
            EnvArg::Str(k) => Ok(EnvMapValue::Bool(env.contains(k.as_str()))),
            _ => Err(key_type_error()),
        }
    } else if str_eq(method, "get") {
        if args.len() == 0 || args.len() > 2 {
            return Err(arity("get() takes one or two arguments"));
        }
        let found = match &args[0] {
            EnvArg::Str(k) => env.get(k.as_str()),
            _ => {
                return Err(key_type_error());
            },
        };
        match found {
            Some(v) => Ok(EnvMapValue::Str(v)),
            None => {
                if args.len() == 2 {
                    let mut args = args;
                    let d = args.pop().unwrap();
                    Ok(EnvMapValue::Given(d))
                } else {
                    Ok(EnvMapValue::Nil)
                }
            },
        }
    } else if str_eq(method, "keys") {
        if args.len() != 0 {
            return Err(no_args_error(method));
        }
        Ok(EnvMapValue::List(env.keys()))
    } else if str_eq(method, "values") {
        if args.len() != 0 {
            return Err(no_args_error(method));
        }
        Ok(EnvMapValue::List(env.values()))
    } else if str_eq(method, "to_list") {
        if args.len() != 0 {
            return Err(no_args_error(method));
        }
        Ok(EnvMapValue::Pairs(env.to_list()))
    } else if str_eq(method, "length") {
        if args.len() != 0 {
            return Err(no_args_error(method));
        }
        Ok(EnvMapValue::Count(env.length()))
    } else if str_eq(method, "delete") {
        if args.len() != 1 {
            return Err(arity("delete() takes exactly one argument"));
        }
        match &args[0] {
            EnvArg::Str(k) => Ok(EnvMapValue::Bool(env.delete(k.as_str()))),
            _ => Err(key_type_error()),
        }
    } else if str_eq(method, "merge") {
        if args.len() != 1 {
            return Err(arity("merge() takes exactly one argument"));
        }
        match &args[0] {
            EnvArg::MapEntries(entries) => merge_entries(env, entries),
            _ => Err(RuntimeError::TypeError { message: text_of("merge() argument must be a map") }),
        }
    } else if str_eq(method, "to_string") {
        if args.len() != 0 {
            return Err(no_args_error(method));
        }
        Ok(EnvMapValue::Str(env_to_string(env)))
    } else {
        let mut m = text_of("ENV has no method '");
        m.append(method);
        m.append("'");
        Err(RuntimeError::InvalidOperation { message: m })
    }
}

} // verus!
