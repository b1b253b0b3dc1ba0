//! Names of the built-in functions.

use vstd::prelude::*;
use crate::text::str_eq;

verus! {

/// The names that refer to built-in functions.
pub open spec fn is_builtin_name(name: Seq<char>) -> bool {
    ||| name == "println"@
    ||| name == "json_parse"@
    ||| name == "json_generate"@
}

/// Check if a function name refers to a built-in function.
pub fn is_builtin_function(name: &str) -> (b: bool)
    ensures
        b == is_builtin_name(name@),
{
    str_eq(name, "println") || str_eq(name, "json_parse") || str_eq(name, "json_generate")
}

} // verus!
