//! Indexing: lists by position, where a negative index counts from the end,
//! and the environment map by variable name (`env[key]`, `env.key`).

use vstd::prelude::*;
use crate::env_map_methods::EnvArg;
use crate::env_overlay::{set_refusal, EnvProxy};
use crate::error::RuntimeError;
use crate::text::{i64_to_decimal, int_decimal, nat_decimal, nat_to_decimal};

verus! {

/// The position that `idx` names in a list of `len` items: `idx` itself when
/// it is not negative, counted back from the end when it is.
pub open spec fn normalized_index(idx: int, len: int) -> int {
    if idx < 0 {
        len + idx
    } else {
        idx
    }
}

/// `idx` names an item of a list of `len` items.
pub open spec fn index_in_bounds(idx: int, len: int) -> bool {
    0 <= normalized_index(idx, len) < len
}

/// The message for an index that names no item of a list of `len` items.
pub open spec fn out_of_bounds_message(idx: int, len: nat) -> Seq<char> {
    "Index "@ + int_decimal(idx) + " out of bounds for list of length "@ + nat_decimal(len)
}

/// The position in a list of `len` items that `idx` names.
pub fn resolve_list_index(idx: i64, len: usize) -> (r: Result<usize, RuntimeError>)
    ensures
        index_in_bounds(idx as int, len as int) ==> r == Ok::<usize, RuntimeError>(normalized_index(idx as int, len as int) as usize),
        !index_in_bounds(idx as int, len as int) ==> (r matches Err(RuntimeError::IndexOutOfBounds { message })
            && message@ == out_of_bounds_message(idx as int, len as nat)),
{
    let normalized: i128 = if idx < 0 {
        (len as i128) + (idx as i128)
    } else {
        idx as i128
    };
    if normalized < 0 || normalized >= (len as i128) {
        let mut m = "Index ".to_owned();
        let idx_text = i64_to_decimal(idx);
        m.append(idx_text.as_str());
        m.append(" out of bounds for list of length ");
        let len_text = nat_to_decimal(len as u64);
        m.append(len_text.as_str());
        return Err(RuntimeError::IndexOutOfBounds { message: m });
    }
    Ok(normalized as usize)
}

/// The item of `items` that `idx` names.
pub fn list_item<T: Clone>(items: &Vec<T>, idx: i64) -> (r: Result<T, RuntimeError>)
    ensures
        index_in_bounds(idx as int, items@.len() as int) ==> (r matches Ok(x)
            && cloned(items@[normalized_index(idx as int, items@.len() as int)], x)),
        !index_in_bounds(idx as int, items@.len() as int) ==> (r matches Err(RuntimeError::IndexOutOfBounds { message })
            && message@ == out_of_bounds_message(idx as int, items@.len())),
{
    match resolve_list_index(idx, items.len()) {
        Ok(i) => Ok(items[i].clone()),
        Err(e) => Err(e),
    }
}

/// `items` with the item that `idx` names replaced by `value`.
pub fn with_list_item<T>(items: Vec<T>, idx: i64, value: T) -> (r: Result<Vec<T>, RuntimeError>)
    ensures
        index_in_bounds(idx as int, items@.len() as int) ==> (r matches Ok(v)
            && v@ == items@.update(normalized_index(idx as int, items@.len() as int), value)),
        !index_in_bounds(idx as int, items@.len() as int) ==> (r matches Err(RuntimeError::IndexOutOfBounds { message })
            && message@ == out_of_bounds_message(idx as int, items@.len())),
{
    match resolve_list_index(idx, items.len()) {
        Ok(i) => {
            let mut items = items;
            items.set(i, value);
            Ok(items)
        },
        Err(e) => Err(e),
    }
}

/// The message for a variable that the environment map does not have.
pub open spec fn variable_not_found(key: Seq<char>) -> Seq<char> {
    "Environment variable not found: "@ + key
}

/// The value of the variable `key` (`env.key`).
pub fn env_key_item(env: &EnvProxy, key: &str) -> (r: Result<String, RuntimeError>)
    ensures
        match env@.get(key@) {
            Some(v) => r matches Ok(x) && x@ == v,
            None => r matches Err(RuntimeError::KeyNotFound { message }) && message@ == variable_not_found(key@),
        },
{
    match env.get(key) {
        Some(v) => Ok(v),
        None => {
            let mut m = "Environment variable not found: ".to_owned();
            m.append(key);
            Err(RuntimeError::KeyNotFound { message: m })
        },
    }
}

/// The value of the variable that `key` names (`env[key]`); keys must be strings.
pub fn env_item<V>(env: &EnvProxy, key: &EnvArg<V>) -> (r: Result<String, RuntimeError>)
    ensures
        match key {
            EnvArg::Str(k) => match env@.get(k@) {
                Some(v) => r matches Ok(x) && x@ == v,
                None => r matches Err(RuntimeError::KeyNotFound { message }) && message@ == variable_not_found(k@),
            },
            _ => r matches Err(RuntimeError::TypeError { message }) && message@ == "Environment keys must be strings"@,
        },
{
    match key {
        EnvArg::Str(k) => env_key_item(env, k.as_str()),
        _ => Err(RuntimeError::TypeError { message: "Environment keys must be strings".to_owned() }),
    }
}

/// Set the variable that `key` names to `text`, the text of the assigned
/// value (`env[key] = value`); keys must be strings.
pub fn set_env_item<V>(env: &mut EnvProxy, key: &EnvArg<V>, text: &str) -> (r: Result<(), RuntimeError>)
    ensures
        match key {
            EnvArg::Str(k) => match set_refusal(k@, text@) {
                Some(msg) => {
                    &&& r matches Err(RuntimeError::InvalidOperation { message }) && message@ == msg
                    &&& final(env)@ == old(env)@
                },
                None => r is Ok && final(env)@ == old(env)@.insert(k@, text@),
            },
            _ => {
                &&& r matches Err(RuntimeError::TypeError { message }) && message@ == "Environment keys must be strings"@
                &&& *final(env) == *old(env)
            },
        },
        final(env).base_map() == old(env).base_map(),
{
    match key {
        EnvArg::Str(k) => env.set(k.as_str(), text),
        _ => Err(RuntimeError::TypeError { message: "Environment keys must be strings".to_owned() }),
    }
}

} // verus!
