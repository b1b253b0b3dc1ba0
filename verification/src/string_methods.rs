//! The methods of string values: `length`, `split`, `to_number`, `to_list`,
//! `index_of`, `contains`, `starts_with`, `ends_with`, `replace`, `trim`,
//! `upper`, `lower`, `reverse`, `repeat` and `to_string`.

use vstd::prelude::*;
use crate::error::RuntimeError;
use crate::number_text::{is_number_text, reads_as_number};
use crate::str_ops::{
    char_strings, contains_seq, contains_str, ends_with_str, find_from, find_str, lowercase_of,
    repeat_str, repeated, replace_str, replaced, reverse_str, split_pieces, split_str,
    starts_with_str, to_lowercase, to_uppercase, uppercase_of,
};
use crate::text::{str_eq, strings_view, trim, trimmed};

verus! {

/// An argument of a string method, as the methods read it.
#[derive(Debug, Clone, PartialEq)]
pub enum StrArg {
    /// A string.
    Str(String),
    /// A number: whether it is below zero, and the whole number it rounds to
    /// when that fits in an `i64` (`None` when it does not).
    Number { negative: bool, rounded: Option<i64> },
    /// A value of any other kind.
    Other,
}

/// What a string method returns.
#[derive(Debug, Clone, PartialEq)]
pub enum StrValue {
    /// A number.
    Number(i128),
    /// A boolean.
    Bool(bool),
    /// A string.
    Str(String),
    /// A list of strings.
    List(Vec<String>),
    /// `to_number` on a string that reads as a number: the string, which the
    /// number type turns into its value.
    NumberText(String),
}

/// The largest count that `repeat` accepts.
pub const MAX_REPEAT_COUNT: i64 = 100000;

/// `r` is an arity error with the message `msg`.
pub open spec fn arity_error(r: Result<StrValue, RuntimeError>, msg: Seq<char>) -> bool {
    r matches Err(RuntimeError::ArityMismatch { message }) && message@ == msg
}

/// `r` is a type error with the message `msg`.
pub open spec fn type_error(r: Result<StrValue, RuntimeError>, msg: Seq<char>) -> bool {
    r matches Err(RuntimeError::TypeError { message }) && message@ == msg
}

/// `r` is the string `t`.
pub open spec fn gives_str(r: Result<StrValue, RuntimeError>, t: Seq<char>) -> bool {
    r matches Ok(StrValue::Str(x)) && x@ == t
}

/// `r` is the boolean `b`.
pub open spec fn gives_bool(r: Result<StrValue, RuntimeError>, b: bool) -> bool {
    r matches Ok(StrValue::Bool(x)) && x == b
}

/// `r` is the list of strings `l`.
pub open spec fn gives_list(r: Result<StrValue, RuntimeError>, l: Seq<Seq<char>>) -> bool {
    r matches Ok(StrValue::List(v)) && strings_view(v@) == l
}

/// The result of a method that takes no arguments and gives `ok` otherwise.
pub open spec fn no_arg_method(
    r: Result<StrValue, RuntimeError>,
    args: Seq<StrArg>,
    name: Seq<char>,
    ok: bool,
) -> bool {
    if args.len() != 0 {
        arity_error(r, name + "() takes no arguments"@)
    } else {
        ok
    }
}

/// The result of a method that takes one string and gives `ok(t)` for it.
pub open spec fn one_str_method(
    r: Result<StrValue, RuntimeError>,
    args: Seq<StrArg>,
    name: Seq<char>,
    ok: spec_fn(Seq<char>) -> bool,
) -> bool {
    if args.len() != 1 {
        arity_error(r, name + "() takes exactly one argument"@)
    } else {
        match args[0] {
            StrArg::Str(t) => ok(t@),
            _ => type_error(r, name + "() argument must be a string"@),
        }
    }
}

/// What `repeat` gives for the receiver `s` and its arguments.
pub open spec fn repeat_gives(r: Result<StrValue, RuntimeError>, s: Seq<char>, args: Seq<StrArg>) -> bool {
    if args.len() != 1 {
        arity_error(r, "repeat() takes exactly one argument"@)
    } else {
        match args[0] {
            StrArg::Number { negative, rounded } => if negative {
                type_error(r, "repeat() count must be non-negative"@)
            } else {
                match rounded {
                    None => type_error(r, "repeat() count must be a finite integer"@),
                    Some(c) => if c > MAX_REPEAT_COUNT {
                        type_error(r, "repeat() count is too large"@)
                    } else if c < 0 {
                        // no number that is not below zero rounds below zero
                        type_error(r, "repeat() count must be non-negative"@)
                    } else {
                        gives_str(r, repeated(s, c as nat))
                    },
                }
            },
            _ => type_error(r, "repeat() argument must be a number"@),
        }
    }
}

/// The separator that `split` uses: a single space by default.
pub open spec fn split_gives(r: Result<StrValue, RuntimeError>, s: Seq<char>, args: Seq<StrArg>) -> bool {
    if args.len() == 0 {
        gives_list(r, split_pieces(s, " "@))
    } else if args.len() == 1 {
        match args[0] {
            StrArg::Str(sep) => gives_list(r, split_pieces(s, sep@)),
            _ => type_error(r, "split() separator must be a string"@),
        }
    } else {
        arity_error(r, "split() takes at most one argument"@)
    }
}

/// The byte offset that `index_of` gives, or -1 when `t` does not occur in `s`.
pub open spec fn index_of_value(s: Seq<char>, t: Seq<char>) -> int {
    match find_from(s, t, 0) {
        Some(i) => (vstd::utf8::encode_utf8(s.subrange(0, i)).len() as usize) as int,
        None => -1,
    }
}

/// What `replace` gives for the receiver `s` and its arguments.
pub open spec fn replace_gives(r: Result<StrValue, RuntimeError>, s: Seq<char>, args: Seq<StrArg>) -> bool {
    if args.len() != 2 {
        arity_error(r, "replace() takes exactly two arguments"@)
    } else {
        match (args[0], args[1]) {
            (StrArg::Str(from), StrArg::Str(to)) => gives_str(r, replaced(s, from@, to@)),
            _ => type_error(r, "replace() arguments must be strings"@),
        }
    }
}

/// What the string method `method` gives on the receiver `s` with `args`.
pub open spec fn string_method_gives(
    r: Result<StrValue, RuntimeError>,
    s: Seq<char>,
    method: Seq<char>,
    args: Seq<StrArg>,
) -> bool {
    if method == "length"@ {
        no_arg_method(r, args, method, r matches Ok(StrValue::Number(n)) && n == s.len())
    } else if method == "split"@ {
        split_gives(r, s, args)
    } else if method == "to_number"@ {
        no_arg_method(r, args, method, if is_number_text(s) {
            r matches Ok(StrValue::NumberText(t)) && t@ == s
        } else {
            r matches Err(RuntimeError::InvalidNumberConversion { message }) && message@ == "Cannot convert '"@ + s + "' to number"@
        })
    } else if method == "to_list"@ {
        no_arg_method(r, args, method, gives_list(r, s.map_values(|c: char| seq![c])))
    } else if method == "index_of"@ {
        one_str_method(r, args, method, |t: Seq<char>| r matches Ok(StrValue::Number(n)) && n == index_of_value(s, t))
    } else if method == "contains"@ {
        one_str_method(r, args, method, |t: Seq<char>| gives_bool(r, contains_seq(s, t)))
    } else if method == "starts_with"@ {
        one_str_method(r, args, method, |t: Seq<char>| gives_bool(r, t.len() <= s.len() && s.subrange(0, t.len() as int) == t))
    } else if method == "ends_with"@ {
        one_str_method(r, args, method, |t: Seq<char>| gives_bool(r, t.len() <= s.len() && s.subrange(s.len() - t.len(), s.len() as int) == t))
    } else if method == "replace"@ {
        replace_gives(r, s, args)
    } else if method == "trim"@ {
        no_arg_method(r, args, method, gives_str(r, trimmed(s)))
    } else if method == "upper"@ {
        no_arg_method(r, args, method, gives_str(r, uppercase_of(s)))
    } else if method == "lower"@ {
        no_arg_method(r, args, method, gives_str(r, lowercase_of(s)))
    } else if method == "reverse"@ {
        no_arg_method(r, args, method, gives_str(r, s.reverse()))
    } else if method == "repeat"@ {
        repeat_gives(r, s, args)
    } else if method == "to_string"@ {
        no_arg_method(r, args, method, gives_str(r, s))
    } else {
        r matches Err(RuntimeError::MethodError { message }) && message@ == "String has no method '"@ + method + "'"@
    }
}

fn message(text: &str) -> (m: String)
    ensures
        m@ == text@,
{
    text.to_owned()
}

fn method_message(method: &str, tail: &str) -> (m: String)
    ensures
        m@ == method@ + tail@,
{
    let mut m = method.to_owned();
    m.append(tail);
    m
}

fn no_args_error(method: &str) -> (e: RuntimeError)
    ensures
        e matches RuntimeError::ArityMismatch { message } && message@ == method@ + "() takes no arguments"@,
{
    RuntimeError::ArityMismatch { message: method_message(method, "() takes no arguments") }
}

/// The one string argument of a method, or its arity or type error.
fn one_str_arg<'a>(args: &'a Vec<StrArg>, method: &str) -> (r: Result<&'a String, RuntimeError>)
    ensures
        args@.len() != 1 ==> (r matches Err(RuntimeError::ArityMismatch { message })
            && message@ == method@ + "() takes exactly one argument"@),
        args@.len() == 1 ==> match args@[0] {
            StrArg::Str(t) => r matches Ok(x) && x@ == t@,
            _ => r matches Err(RuntimeError::TypeError { message })
                && message@ == method@ + "() argument must be a string"@,
        },
{
    if args.len() != 1 {
        return Err(RuntimeError::ArityMismatch { message: method_message(method, "() takes exactly one argument") });
    }
    match &args[0] {
        StrArg::Str(t) => Ok(t),
        _ => Err(RuntimeError::TypeError { message: method_message(method, "() argument must be a string") }),
    }
}

fn repeat_method(s: &str, args: &Vec<StrArg>) -> (r: Result<StrValue, RuntimeError>)
    ensures
        repeat_gives(r, s@, args@),
{
    if args.len() != 1 {
        return Err(RuntimeError::ArityMismatch { message: message("repeat() takes exactly one argument") });
    }
    match &args[0] {
        StrArg::Number { negative, rounded } => {
            if *negative {
                return Err(RuntimeError::TypeError { message: message("repeat() count must be non-negative") });
            }
            match rounded {
                None => Err(RuntimeError::TypeError { message: message("repeat() count must be a finite integer") }),
                Some(c) => {
                    if *c > MAX_REPEAT_COUNT {
                        Err(RuntimeError::TypeError { message: message("repeat() count is too large") })
                    } else if *c < 0 {
                        Err(RuntimeError::TypeError { message: message("repeat() count must be non-negative") })
                    } else {
                        let n: usize = *c as usize;
                        Ok(StrValue::Str(repeat_str(s, n)))
                    }
                },
            }
        },
        _ => Err(RuntimeError::TypeError { message: message("repeat() argument must be a number") }),
    }
}

fn split_method(s: &str, args: &Vec<StrArg>) -> (r: Result<StrValue, RuntimeError>)
    ensures
        split_gives(r, s@, args@),
{
    if args.len() == 0 {
        Ok(StrValue::List(split_str(s, " ")))
    } else if args.len() == 1 {
        match &args[0] {
            StrArg::Str(sep) => Ok(StrValue::List(split_str(s, sep.as_str()))),
            _ => Err(RuntimeError::TypeError { message: message("split() separator must be a string") }),
        }
    } else {
        Err(RuntimeError::ArityMismatch { message: message("split() takes at most one argument") })
    }
}

fn replace_method(s: &str, args: &Vec<StrArg>) -> (r: Result<StrValue, RuntimeError>)
    ensures
        replace_gives(r, s@, args@),
{
    if args.len() != 2 {
        return Err(RuntimeError::ArityMismatch { message: message("replace() takes exactly two arguments") });
    }
    match (&args[0], &args[1]) {
        (StrArg::Str(from), StrArg::Str(to)) => Ok(StrValue::Str(replace_str(s, from.as_str(), to.as_str()))),
        _ => Err(RuntimeError::TypeError { message: message("replace() arguments must be strings") }),
    }
}

/// Call the string method `method` on the receiver `s` with `args`.
pub fn call_string_method(s: &str, method: &str, args: Vec<StrArg>) -> (r: Result<StrValue, RuntimeError>)
    ensures
        string_method_gives(r, s@, method@, args@),
{
    if str_eq(method, "length") {
        if args.len() != 0 {
            return Err(no_args_error(method));
        }
        let n = s.unicode_len();
        Ok(StrValue::Number(n as i128))
    } else if str_eq(method, "split") {
        split_method(s, &args)
    } else if str_eq(method, "to_number") {
        if args.len() != 0 {
            return Err(no_args_error(method));
        }
        if reads_as_number(s) {
            Ok(StrValue::NumberText(s.to_owned()))
        } else {
            let mut message = "Cannot convert '".to_owned();
            message.append(s);
            message.append("' to number");
            Err(RuntimeError::InvalidNumberConversion { message })
        }
    } else if str_eq(method, "to_list") {
        if args.len() != 0 {
            return Err(no_args_error(method));
        }
        Ok(StrValue::List(char_strings(s)))
    } else if str_eq(method, "index_of") {
        match one_str_arg(&args, method) {
            Ok(t) => match find_str(s, t.as_str()) {
                Some(b) => Ok(StrValue::Number(b as i128)),
                None => Ok(StrValue::Number(-1)),
            },
            Err(e) => Err(e),
        }
    } else if str_eq(method, "contains") {
        match one_str_arg(&args, method) {
            Ok(t) => Ok(StrValue::Bool(contains_str(s, t.as_str()))),
            Err(e) => Err(e),
        }
    } else if str_eq(method, "starts_with") {
        match one_str_arg(&args, method) {
            Ok(t) => Ok(StrValue::Bool(starts_with_str(s, t.as_str()))),
            Err(e) => Err(e),
        }
    } else if str_eq(method, "ends_with") {
        match one_str_arg(&args, method) {
            Ok(t) => Ok(StrValue::Bool(ends_with_str(s, t.as_str()))),
            Err(e) => Err(e),
        }
    } else if str_eq(method, "replace") {
        replace_method(s, &args)
    } else if str_eq(method, "trim") {
        if args.len() != 0 {
            return Err(no_args_error(method));
        }
        Ok(StrValue::Str(trim(s).to_owned()))
    } else if str_eq(method, "upper") {
        if args.len() != 0 {
            return Err(no_args_error(method));
        }
        Ok(StrValue::Str(to_uppercase(s)))
    } else if str_eq(method, "lower") {
        if args.len() != 0 {
            return Err(no_args_error(method));
        }
        Ok(StrValue::Str(to_lowercase(s)))
    } else if str_eq(method, "reverse") {
        if args.len() != 0 {
            return Err(no_args_error(method));
        }
        Ok(StrValue::Str(reverse_str(s)))
    } else if str_eq(method, "repeat") {
        repeat_method(s, &args)
    } else if str_eq(method, "to_string") {
        if args.len() != 0 {
            return Err(no_args_error(method));
        }
        Ok(StrValue::Str(s.to_owned()))
    } else {
        let mut m = message("String has no method '");
        m.append(method);
        m.append("'");
        Err(RuntimeError::MethodError { message: m })
    }
}

} // verus!
