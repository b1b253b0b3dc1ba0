//! The methods of list values. A list's items are modelled by what the
//! methods read of them: strings and booleans as they are, numbers by the
//! bits of their IEEE 754 double, and every item by its text. The methods
//! that need nothing more are done here in full; floating-point arithmetic
//! (`sum`, `product`, `average`), closures (`filter`, `map`, `fold`, whose
//! iteration is in `list_closures`) and the comparison of compound values are
//! left to the value type, which gets the operands it needs.

use vstd::prelude::*;
use crate::error::RuntimeError;
use crate::text::{str_eq, strings_view};
use crate::str_ops::{join_strings, join_with, lex_lt, lemma_lex_lt_transitive, lemma_lex_lt_irreflexive, lemma_split_join, str_lt};
use crate::string_methods::{split_gives, StrArg, StrValue};

verus! {

broadcast use vstd::seq_lib::group_to_multiset_ensures;

/// An item of a list, as the list methods see it.
#[derive(Debug, Clone, PartialEq)]
pub enum ListItem<V> {
    /// A string.
    Str(String),
    /// A boolean.
    Bool(bool),
    /// A number: the bits of its IEEE 754 double, and its text.
    Number(u64, String),
    /// Any other value (a list, a map, a tuple, a function, nil), and its text.
    Other(V, String),
}

/// What a list method returns.
#[derive(Debug, PartialEq)]
pub enum ListValue<V> {
    /// No value.
    Nil,
    /// An item, or the default given to `first` or `last`.
    Item(ListItem<V>),
    /// A count.
    Count(usize),
    /// A position in the list; `None` stands for -1, not found.
    Index(Option<usize>),
    /// A boolean.
    Bool(bool),
    /// A string.
    Text(String),
    /// A list of items.
    Items(Vec<ListItem<V>>),
    /// The bits of the numbers that `sum`, `product` or `average` combine,
    /// in the order of the list; the arithmetic is floating point.
    Numbers(Vec<u64>),
    /// The arguments are right, and what is left is the value type's: for
    /// `filter`, `map` and `fold`, calling the closure argument on the items
    /// (through `list_closures`); for `index_of` and `contains`, comparing a
    /// compound argument with compound items; for `sort`, ordering a list of
    /// mixed or compound items, or of numbers one of which is NaN.
    ByValueType,
}

/// The bits of a double without its sign.
pub open spec fn magnitude(b: u64) -> u64 {
    b & 0x7fff_ffff_ffff_ffffu64
}

/// The double with bits `b` is not a number.
pub open spec fn is_nan(b: u64) -> bool {
    magnitude(b) > 0x7ff0_0000_0000_0000u64
}

/// An integer that orders doubles that are numbers as their values are
/// ordered (both zeros get 0).
pub open spec fn number_key(b: u64) -> int {
    if (b >> 63u64) == 1u64 {
        -(magnitude(b) as int)
    } else {
        magnitude(b) as int
    }
}

/// `a < b` on the doubles with these bits.
pub open spec fn number_lt(a: u64, b: u64) -> bool {
    !is_nan(a) && !is_nan(b) && number_key(a) < number_key(b)
}

/// `a == b` on the doubles with these bits.
pub open spec fn number_eq(a: u64, b: u64) -> bool {
    !is_nan(a) && !is_nan(b) && number_key(a) == number_key(b)
}

/// The text of an item, as `to_string` gives it.
pub open spec fn item_text<V>(x: ListItem<V>) -> Seq<char> {
    match x {
        ListItem::Str(s) => s@,
        ListItem::Bool(b) => if b { "true"@ } else { "false"@ },
        ListItem::Number(_, t) => t@,
        ListItem::Other(_, t) => t@,
    }
}

/// The texts of the items.
pub open spec fn item_texts<V>(s: Seq<ListItem<V>>) -> Seq<Seq<char>> {
    s.map_values(|x: ListItem<V>| item_text(x))
}

/// The string of a string item.
pub open spec fn str_of<V>(x: ListItem<V>) -> Seq<char> {
    match x {
        ListItem::Str(s) => s@,
        _ => Seq::empty(),
    }
}

/// The bits of a number item.
pub open spec fn number_bits<V>(x: ListItem<V>) -> u64 {
    match x {
        ListItem::Number(b, _) => b,
        _ => 0,
    }
}

/// The bits of the number items of `s`.
pub open spec fn bits_of<V>(s: Seq<ListItem<V>>) -> Seq<u64> {
    s.map_values(|x: ListItem<V>| number_bits(x))
}

/// Every item is a number.
pub open spec fn all_numbers<V>(s: Seq<ListItem<V>>) -> bool {
    forall|i: int| 0 <= i < s.len() ==> #[trigger] s[i] is Number
}

/// The item `x` equals `a`, where one of them is a string, a boolean or a
/// number: items of different kinds are never equal.
pub open spec fn same_item<V>(x: ListItem<V>, a: ListItem<V>) -> bool {
    match (x, a) {
        (ListItem::Str(s), ListItem::Str(t)) => s@ == t@,
        (ListItem::Bool(p), ListItem::Bool(q)) => p == q,
        (ListItem::Number(m, _), ListItem::Number(n, _)) => number_eq(m, n),
        _ => false,
    }
}

/// `x` comes before `y` when a list is sorted: strings by their characters,
/// `false` before `true`, numbers by value.
pub open spec fn item_lt<V>(x: ListItem<V>, y: ListItem<V>) -> bool {
    match (x, y) {
        (ListItem::Str(s), ListItem::Str(t)) => lex_lt(s@, t@),
        (ListItem::Bool(p), ListItem::Bool(q)) => !p && q,
        (ListItem::Number(m, _), ListItem::Number(n, _)) => number_lt(m, n),
        _ => false,
    }
}

/// The items are all strings, all booleans, or all numbers none of which is
/// NaN: the lists whose order is known.
pub open spec fn sortable<V>(s: Seq<ListItem<V>>) -> bool {
    ||| forall|i: int| 0 <= i < s.len() ==> #[trigger] s[i] is Str
    ||| forall|i: int| 0 <= i < s.len() ==> #[trigger] s[i] is Bool
    ||| forall|i: int| 0 <= i < s.len() ==> #[trigger] s[i] is Number && !is_nan(number_bits(s[i]))
}

/// No item comes before one that is ahead of it.
pub open spec fn in_order<V>(s: Seq<ListItem<V>>) -> bool {
    forall|i: int, j: int| 0 <= i < j < s.len() ==> !item_lt(#[trigger] s[j], #[trigger] s[i])
}

/// The position of the number that `min` (`lower`) or `max` picks: the
/// first, replaced by each later one that is strictly lower (higher).
pub open spec fn pick_index<V>(s: Seq<ListItem<V>>, lower: bool) -> int
    decreases s.len(),
{
    if s.len() <= 1 {
        0
    } else {
        let k = pick_index(s.drop_last(), lower);
        let better = if lower {
            number_lt(number_bits(s.last()), number_bits(s[k]))
        } else {
            number_lt(number_bits(s[k]), number_bits(s.last()))
        };
        if better { s.len() - 1 } else { k }
    }
}

/// `o` is the first position of an item equal to `a`, or `None` when there is none.
pub open spec fn first_index<V>(o: Option<usize>, s: Seq<ListItem<V>>, a: ListItem<V>) -> bool {
    match o {
        Some(i) => i < s.len() && same_item(s[i as int], a)
            && forall|j: int| 0 <= j < i ==> !same_item(#[trigger] s[j], a),
        None => forall|j: int| 0 <= j < s.len() ==> !same_item(#[trigger] s[j], a),
    }
}

/// The arguments of `split` on a string, and of `join` on a list, for the
/// same separator: none for the default one, else that string.
pub open spec fn same_separator<V>(sep: Option<String>, split_args: Seq<StrArg>, join_args: Seq<ListItem<V>>) -> bool {
    match sep {
        None => split_args.len() == 0 && join_args.len() == 0,
        Some(t) => split_args == seq![StrArg::Str(t)] && join_args == seq![ListItem::<V>::Str(t)],
    }
}

/// Splitting a string and joining the pieces with the same separator gives
/// the string back: when `split` on `s` gives a list of strings, and `join`
/// is called on a list of those strings as string items, with the same
/// separator (or both with none), it returns `s`.
pub proof fn lemma_split_then_join<V>(
    s: Seq<char>,
    sep: Option<String>,
    split_args: Seq<StrArg>,
    split: Result<StrValue, RuntimeError>,
    items: Seq<ListItem<V>>,
    join_args: Seq<ListItem<V>>,
    joined: Result<ListValue<V>, RuntimeError>,
)
    requires
        same_separator(sep, split_args, join_args),
        split_gives(split, s, split_args),
        split matches Ok(StrValue::List(pieces)) && items.len() == pieces@.len()
            && forall|i: int| 0 <= i < items.len() ==> #[trigger] items[i] == ListItem::<V>::Str(pieces@[i]),
        join_gives(joined, items, join_args),
    ensures
        joined matches Ok(ListValue::Text(t)) && t@ == s,
{
    let pieces = split->Ok_0->List_0;
    let sep_text = match sep { None => " "@, Some(t) => t@ };
    assert(item_texts(items) =~= strings_view(pieces@));
    lemma_split_join(s, sep_text);
}

/// `contains` finds an item exactly when `index_of` gives a position for
/// it: for the same list and the same string, boolean or number argument.
pub proof fn lemma_contains_iff_index_of<V>(
    items: Seq<ListItem<V>>,
    a: ListItem<V>,
    index_of: Result<ListValue<V>, RuntimeError>,
    contains: Result<ListValue<V>, RuntimeError>,
)
    requires
        !(a is Other),
        search_gives(index_of, items, a, true),
        search_gives(contains, items, a, false),
    ensures
        (index_of matches Ok(ListValue::Index(Some(_)))) <==> (contains matches Ok(ListValue::Bool(true))),
{
    if let Ok(ListValue::Index(Some(i))) = index_of {
        assert(same_item(items[i as int], a));
    }
}

/// Among numbers none of which is NaN, the one that `min` picks is not above
/// any of them, and the one that `max` picks is not below any of them.
pub proof fn lemma_pick_is_extreme<V>(items: Seq<ListItem<V>>, lower: bool)
    requires
        items.len() > 0,
        forall|i: int| 0 <= i < items.len() ==> #[trigger] items[i] is Number && !is_nan(number_bits(items[i])),
    ensures
        0 <= pick_index(items, lower) < items.len(),
        forall|j: int| 0 <= j < items.len() ==> if lower {
            number_key(number_bits(items[pick_index(items, lower)])) <= number_key(number_bits(#[trigger] items[j]))
        } else {
            number_key(number_bits(#[trigger] items[j])) <= number_key(number_bits(items[pick_index(items, lower)]))
        },
    decreases items.len(),
{
    if items.len() > 1 {
        let rest = items.drop_last();
        assert forall|i: int| 0 <= i < rest.len() implies #[trigger] rest[i] is Number && !is_nan(number_bits(rest[i])) by {
            assert(rest[i] == items[i]);
        }
        lemma_pick_is_extreme(rest, lower);
        let k = pick_index(rest, lower);
        let n = items.len() - 1;
        assert(rest[k] == items[k]);
        assert(items[n] is Number && !is_nan(number_bits(items[n])));
        assert(items[k] is Number && !is_nan(number_bits(items[k])));
        assert forall|j: int| 0 <= j < items.len() implies (if lower {
            number_key(number_bits(items[pick_index(items, lower)])) <= number_key(number_bits(#[trigger] items[j]))
        } else {
            number_key(number_bits(#[trigger] items[j])) <= number_key(number_bits(items[pick_index(items, lower)]))
        }) by {
            if j < n {
                assert(rest[j] == items[j]);
            }
        }
    }
}

/// `r` is an arity error with the message `msg`.
pub open spec fn list_arity<V>(r: Result<ListValue<V>, RuntimeError>, msg: Seq<char>) -> bool {
    r matches Err(RuntimeError::ArityMismatch { message }) && message@ == msg
}

/// `r` is an invalid-operation error with the message `msg`.
pub open spec fn list_invalid<V>(r: Result<ListValue<V>, RuntimeError>, msg: Seq<char>) -> bool {
    r matches Err(RuntimeError::InvalidOperation { message }) && message@ == msg
}

/// `r` is a type error with the message `msg`.
pub open spec fn list_type_error<V>(r: Result<ListValue<V>, RuntimeError>, msg: Seq<char>) -> bool {
    r matches Err(RuntimeError::TypeError { message }) && message@ == msg
}

/// A method that takes no arguments.
pub open spec fn no_arg<V>(r: Result<ListValue<V>, RuntimeError>, n: int, name: Seq<char>, ok: bool) -> bool {
    if n != 0 {
        list_arity(r, name + "() takes no arguments"@)
    } else {
        ok
    }
}

/// A method that takes exactly `k` arguments.
pub open spec fn exact_args<V>(r: Result<ListValue<V>, RuntimeError>, n: int, k: int, name: Seq<char>, tail: Seq<char>, ok: bool) -> bool {
    if n != k {
        list_arity(r, name + tail)
    } else {
        ok
    }
}

/// The items of `v` are clones of those of `s`, in reverse order.
pub open spec fn reversed_clones<T: Clone>(v: Seq<T>, s: Seq<T>) -> bool {
    &&& v.len() == s.len()
    &&& forall|i: int| 0 <= i < s.len() ==> cloned(s[s.len() - 1 - i], #[trigger] v[i])
}

/// What `first` or `last` gives: the item at `pos` of a non-empty list, else
/// the default when one was given, else nil.
pub open spec fn end_item<V: Clone>(r: Result<ListValue<V>, RuntimeError>, items: Seq<ListItem<V>>, args: Seq<ListItem<V>>, name: Seq<char>, pos: int) -> bool {
    if args.len() > 1 {
        list_arity(r, name + "() takes at most one argument (default value)"@)
    } else if items.len() > 0 {
        r matches Ok(ListValue::Item(x)) && cloned(items[pos], x)
    } else if args.len() == 1 {
        r matches Ok(ListValue::Item(x)) && x == args[0]
    } else {
        r matches Ok(ListValue::Nil)
    }
}

/// What `join` gives: the texts of the items joined by the separator, one
/// space when none is given.
pub open spec fn join_gives<V>(r: Result<ListValue<V>, RuntimeError>, items: Seq<ListItem<V>>, args: Seq<ListItem<V>>) -> bool {
    if args.len() > 1 {
        list_arity(r, "join() takes at most one argument"@)
    } else if args.len() == 1 && !(args[0] is Str) {
        list_type_error(r, "join() separator must be a string"@)
    } else {
        let sep = if args.len() == 0 { " "@ } else { str_of(args[0]) };
        r matches Ok(ListValue::Text(t)) && t@ == join_with(item_texts(items), sep)
    }
}

/// What `index_of` or `contains` gives for the argument `a`.
pub open spec fn search_gives<V>(r: Result<ListValue<V>, RuntimeError>, items: Seq<ListItem<V>>, a: ListItem<V>, want_index: bool) -> bool {
    if a is Other && exists|j: int| 0 <= j < items.len() && #[trigger] items[j] is Other {
        r matches Ok(ListValue::ByValueType)
    } else if want_index {
        r matches Ok(ListValue::Index(o)) && first_index(o, items, a)
    } else {
        r matches Ok(ListValue::Bool(b)) && b == exists|j: int| 0 <= j < items.len() && same_item(#[trigger] items[j], a)
    }
}

/// What `sum`, `product` or `average` gives on a list of numbers: the
/// numbers to combine; a type error on any other list.
pub open spec fn numbers_gives<V>(r: Result<ListValue<V>, RuntimeError>, items: Seq<ListItem<V>>, msg: Seq<char>) -> bool {
    if all_numbers(items) {
        r matches Ok(ListValue::Numbers(v)) && v@ == bits_of(items)
    } else {
        list_type_error(r, msg)
    }
}

/// What `min` or `max` gives.
pub open spec fn extreme_gives<V>(r: Result<ListValue<V>, RuntimeError>, items: Seq<ListItem<V>>, name: Seq<char>, lower: bool) -> bool {
    if items.len() == 0 {
        list_invalid(r, name + "() called on empty list"@)
    } else if !all_numbers(items) {
        list_type_error(r, name + "() can only be called on lists of numbers"@)
    } else {
        r matches Ok(ListValue::Item(x)) && x == items[pick_index(items, lower)]
    }
}

/// What `sort` gives: the items in order, each as often as in the list.
pub open spec fn sort_gives<V>(r: Result<ListValue<V>, RuntimeError>, items: Seq<ListItem<V>>) -> bool {
    if sortable(items) {
        r matches Ok(ListValue::Items(v)) && in_order(v@) && v@.to_multiset() == items.to_multiset()
    } else {
        r matches Ok(ListValue::ByValueType)
    }
}

/// What the list method `method` gives with `args`, and the list it leaves,
/// `before` being the list's items when it was called.
pub open spec fn list_method_gives<V: Clone>(
    r: Result<ListValue<V>, RuntimeError>,
    before: Seq<ListItem<V>>,
    after: Seq<ListItem<V>>,
    method: Seq<char>,
    args: Seq<ListItem<V>>,
) -> bool {
    let n = args.len() as int;
    if method == "push"@ {
        if n != 1 {
            after == before && list_arity(r, method + "() takes exactly one argument"@)
        } else {
            after == before.push(args[0]) && (r matches Ok(ListValue::Nil))
        }
    } else if method == "pop"@ {
        if n != 0 {
            after == before && list_arity(r, method + "() takes no arguments"@)
        } else if before.len() == 0 {
            after == before && list_invalid(r, "Cannot pop from empty list"@)
        } else {
            after == before.drop_last() && (r matches Ok(ListValue::Item(x)) && x == before.last())
        }
    } else {
        &&& after == before
        &&& if method == "length"@ {
            no_arg(r, n, method, r matches Ok(ListValue::Count(c)) && c == before.len())
        } else if method == "join"@ {
            join_gives(r, before, args)
        } else if method == "index_of"@ || method == "contains"@ {
            exact_args(r, n, 1, method, "() takes exactly one argument"@, search_gives(r, before, args[0], method == "index_of"@))
        } else if method == "filter"@ || method == "map"@ {
            exact_args(r, n, 1, method, "() takes exactly one argument"@, r matches Ok(ListValue::ByValueType))
        } else if method == "fold"@ {
            exact_args(r, n, 2, method, "() takes exactly two arguments"@, r matches Ok(ListValue::ByValueType))
        } else if method == "sum"@ || method == "product"@ {
            no_arg(r, n, method, numbers_gives(r, before, method + "() can only be called on lists of numbers"@))
        } else if method == "average"@ {
            no_arg(r, n, method, if before.len() == 0 {
                r matches Ok(ListValue::Nil)
            } else {
                numbers_gives(r, before, "average() requires all elements to be numbers"@)
            })
        } else if method == "min"@ || method == "max"@ {
            no_arg(r, n, method, extreme_gives(r, before, method, method == "min"@))
        } else if method == "sort"@ {
            no_arg(r, n, method, sort_gives(r, before))
        } else if method == "to_string"@ {
            no_arg(r, n, method, r matches Ok(ListValue::Text(t)) && t@ == "["@ + join_with(item_texts(before), ", "@) + "]"@)
        } else if method == "reverse"@ {
            no_arg(r, n, method, r matches Ok(ListValue::Items(v)) && reversed_clones(v@, before))
        } else if method == "first"@ {
            end_item(r, before, args, method, 0)
        } else if method == "last"@ {
            end_item(r, before, args, method, before.len() - 1)
        } else {
            r matches Err(RuntimeError::MethodError { message }) && message@ == "List has no method '"@ + method + "'"@
        }
    }
}

fn arity_error(method: &str, tail: &str) -> (e: RuntimeError)
    ensures
        e matches RuntimeError::ArityMismatch { message } && message@ == method@ + tail@,
{
    let mut message = method.to_owned();
    message.append(tail);
    RuntimeError::ArityMismatch { message }
}

/// `a < b` on the doubles with these bits.
pub fn number_less(a: u64, b: u64) -> (r: bool)
    ensures
        r == number_lt(a, b),
{
    let ma = a & 0x7fff_ffff_ffff_ffffu64;
    let mb = b & 0x7fff_ffff_ffff_ffffu64;
    if ma > 0x7ff0_0000_0000_0000u64 || mb > 0x7ff0_0000_0000_0000u64 {
        return false;
    }
    let na = (a >> 63u64) == 1u64;
    let nb = (b >> 63u64) == 1u64;
    if na && nb {
        mb < ma
    } else if na {
        !(ma == 0 && mb == 0)
    } else if nb {
        false
    } else {
        ma < mb
    }
}

/// `a == b` on the doubles with these bits.
pub fn number_equal(a: u64, b: u64) -> (r: bool)
    ensures
        r == number_eq(a, b),
{
    let ma = a & 0x7fff_ffff_ffff_ffffu64;
    let mb = b & 0x7fff_ffff_ffff_ffffu64;
    if ma > 0x7ff0_0000_0000_0000u64 || mb > 0x7ff0_0000_0000_0000u64 {
        return false;
    }
    let na = (a >> 63u64) == 1u64;
    let nb = (b >> 63u64) == 1u64;
    if na == nb {
        ma == mb
    } else {
        ma == 0 && mb == 0
    }
}

/// A copy of a string, boolean or number item.
fn copy_item<V>(x: &ListItem<V>) -> (r: ListItem<V>)
    requires
        !(*x is Other),
    ensures
        r == *x,
{
    match x {
        ListItem::Str(s) => ListItem::Str(s.clone()),
        ListItem::Bool(b) => ListItem::Bool(*b),
        ListItem::Number(b, t) => ListItem::Number(*b, t.clone()),
        ListItem::Other(_, _) => {
            proof { assert(false); }
            ListItem::Bool(false)
        }
    }
}

/// The text of an item.
fn text_of<V>(x: &ListItem<V>) -> (r: String)
    ensures
        r@ == item_text(*x),
{
    match x {
        ListItem::Str(s) => s.clone(),
        ListItem::Bool(b) => if *b { "true".to_owned() } else { "false".to_owned() },
        ListItem::Number(_, t) => t.clone(),
        ListItem::Other(_, t) => t.clone(),
    }
}

/// The texts of the items, joined by `sep`.
fn joined_texts<V>(items: &Vec<ListItem<V>>, sep: &str) -> (r: String)
    ensures
        r@ == join_with(item_texts(items@), sep@),
{
    let mut texts: Vec<String> = Vec::new();
    let mut i: usize = 0;
    while i < items.len()
        invariant
            i <= items@.len(),
            texts@.len() == i,
            forall|j: int| 0 <= j < i ==> #[trigger] texts@[j]@ == item_text(items@[j]),
        decreases items@.len() - i,
    {
        texts.push(text_of(&items[i]));
        i = i + 1;
    }
    assert(strings_view(texts@) =~= item_texts(items@));
    join_strings(&texts, sep)
}

/// `x` equals `a`, where one of them is not a compound value.
pub(crate) fn same<V>(x: &ListItem<V>, a: &ListItem<V>) -> (r: bool)
    ensures
        r == same_item(*x, *a),
{
    match (x, a) {
        (ListItem::Str(s), ListItem::Str(t)) => str_eq(s.as_str(), t.as_str()),
        (ListItem::Bool(p), ListItem::Bool(q)) => *p == *q,
        (ListItem::Number(m, _), ListItem::Number(n, _)) => number_equal(*m, *n),
        _ => false,
    }
}

/// The first position of an item equal to `a`.
fn find_item<V>(items: &Vec<ListItem<V>>, a: &ListItem<V>) -> (o: Option<usize>)
    ensures
        first_index(o, items@, *a),
{
    let mut i: usize = 0;
    while i < items.len()
        invariant
            i <= items@.len(),
            forall|j: int| 0 <= j < i ==> !same_item(#[trigger] items@[j], *a),
        decreases items@.len() - i,
    {
        if same(&items[i], a) {
            return Some(i);
        }
        i = i + 1;
    }
    None
}

/// Every item is a number.
fn numbers_only<V>(items: &Vec<ListItem<V>>) -> (b: bool)
    ensures
        b == all_numbers(items@),
{
    let mut i: usize = 0;
    while i < items.len()
        invariant
            i <= items@.len(),
            forall|j: int| 0 <= j < i ==> #[trigger] items@[j] is Number,
        decreases items@.len() - i,
    {
        match &items[i] {
            ListItem::Number(_, _) => {},
            _ => {
                return false;
            },
        }
        i = i + 1;
    }
    true
}

/// The bits of the number items.
fn number_list<V>(items: &Vec<ListItem<V>>) -> (v: Vec<u64>)
    ensures
        v@ == bits_of(items@),
{
    let mut v: Vec<u64> = Vec::new();
    let mut i: usize = 0;
    while i < items.len()
        invariant
            i <= items@.len(),
            v@ == bits_of(items@).take(i as int),
        decreases items@.len() - i,
    {
        let b: u64 = match &items[i] {
            ListItem::Number(b, _) => *b,
            _ => 0,
        };
        v.push(b);
        i = i + 1;
        assert(v@ =~= bits_of(items@).take(i as int));
    }
    assert(bits_of(items@).take(items@.len() as int) =~= bits_of(items@));
    v
}

/// The bits of a number item.
fn bits<V>(x: &ListItem<V>) -> (b: u64)
    ensures
        b == number_bits(*x),
{
    match x {
        ListItem::Number(b, _) => *b,
        _ => 0,
    }
}

/// The position of the number that `min` (`lower`) or `max` picks.
fn pick<V>(items: &Vec<ListItem<V>>, lower: bool) -> (k: usize)
    requires
        items@.len() > 0,
    ensures
        k == pick_index(items@, lower),
        k < items@.len(),
{
    let mut k: usize = 0;
    let mut i: usize = 1;
    while i < items.len()
        invariant
            1 <= i <= items@.len(),
            k < i,
            k == pick_index(items@.take(i as int), lower),
        decreases items@.len() - i,
    {
        assert(items@.take(i + 1).drop_last() =~= items@.take(i as int));
        let x = bits(&items[i]);
        let y = bits(&items[k]);
        let better = if lower { number_less(x, y) } else { number_less(y, x) };
        if better {
            k = i;
        }
        i = i + 1;
    }
    assert(items@.take(items@.len() as int) =~= items@);
    k
}

/// The order of items is transitive.
pub proof fn lemma_item_lt_transitive<V>(x: ListItem<V>, y: ListItem<V>, z: ListItem<V>)
    requires
        item_lt(x, y),
        item_lt(y, z),
    ensures
        item_lt(x, z),
{
    match (x, y, z) {
        (ListItem::Str(a), ListItem::Str(b), ListItem::Str(c)) => {
            lemma_lex_lt_transitive(a@, b@, c@, 0);
        },
        _ => {},
    }
}

/// No item comes before itself.
pub proof fn lemma_item_lt_irreflexive<V>(x: ListItem<V>)
    ensures
        !item_lt(x, x),
{
    match x {
        ListItem::Str(a) => {
            lemma_lex_lt_irreflexive(a@, 0);
        },
        _ => {},
    }
}

/// `x` comes before `y`.
fn less<V>(x: &ListItem<V>, y: &ListItem<V>) -> (r: bool)
    ensures
        r == item_lt(*x, *y),
{
    match (x, y) {
        (ListItem::Str(s), ListItem::Str(t)) => str_lt(s.as_str(), t.as_str()),
        (ListItem::Bool(p), ListItem::Bool(q)) => !*p && *q,
        (ListItem::Number(m, _), ListItem::Number(n, _)) => number_less(*m, *n),
        _ => false,
    }
}

/// Whether the list is one whose order is known.
fn can_sort<V>(items: &Vec<ListItem<V>>) -> (b: bool)
    ensures
        b == sortable(items@),
{
    let mut strs = true;
    let mut bools = true;
    let mut nums = true;
    let mut i: usize = 0;
    while i < items.len()
        invariant
            i <= items@.len(),
            strs == forall|j: int| 0 <= j < i ==> #[trigger] items@[j] is Str,
            bools == forall|j: int| 0 <= j < i ==> #[trigger] items@[j] is Bool,
            nums == forall|j: int| 0 <= j < i ==> #[trigger] items@[j] is Number && !is_nan(number_bits(items@[j])),
        decreases items@.len() - i,
    {
        match &items[i] {
            ListItem::Str(_) => {
                bools = false;
                nums = false;
            },
            ListItem::Bool(_) => {
                strs = false;
                nums = false;
            },
            ListItem::Number(b, _) => {
                strs = false;
                bools = false;
                if (*b & 0x7fff_ffff_ffff_ffffu64) > 0x7ff0_0000_0000_0000u64 {
                    nums = false;
                }
            },
            ListItem::Other(_, _) => {
                strs = false;
                bools = false;
                nums = false;
            },
        }
        i = i + 1;
    }
    strs || bools || nums
}

/// The items of a list whose order is known, sorted: each is put before the
/// first of those placed so far that it comes before.
fn sorted_items<V>(items: &Vec<ListItem<V>>) -> (v: Vec<ListItem<V>>)
    requires
        sortable(items@),
    ensures
        in_order(v@),
        v@.to_multiset() == items@.to_multiset(),
{
    let mut v: Vec<ListItem<V>> = Vec::new();
    let mut i: usize = 0;
    while i < items.len()
        invariant
            i <= items@.len(),
            sortable(items@),
            in_order(v@),
            v@.to_multiset() == items@.take(i as int).to_multiset(),
        decreases items@.len() - i,
    {
        let x = copy_item(&items[i]);
        let mut j: usize = 0;
        while j < v.len() && !less(&x, &v[j])
            invariant
                j <= v@.len(),
                forall|k: int| 0 <= k < j ==> !item_lt(x, #[trigger] v@[k]),
            decreases v@.len() - j,
        {
            j = j + 1;
        }
        let ghost old_v = v@;
        v.insert(j, x);
        proof {
            assert forall|a: int, b: int| 0 <= a < b < v@.len() implies !item_lt(#[trigger] v@[b], #[trigger] v@[a]) by {
                if a < j && b == j {
                } else if a == j && b > j {
                    if item_lt(old_v[b - 1], x) {
                        if b - 1 > j {
                            lemma_item_lt_transitive(old_v[b - 1], x, old_v[j as int]);
                        } else {
                            lemma_item_lt_transitive(old_v[b - 1], x, old_v[j as int]);
                            lemma_item_lt_irreflexive(old_v[j as int]);
                        }
                    }
                } else if a < j && b > j {
                    assert(!item_lt(old_v[b - 1], old_v[a]));
                } else if b < j {
                    assert(!item_lt(old_v[b], old_v[a]));
                } else {
                    assert(!item_lt(old_v[b - 1], old_v[a - 1]));
                }
            }
            assert(items@.take(i + 1) =~= items@.take(i as int).push(items@[i as int]));
        }
        i = i + 1;
    }
    assert(items@.take(items@.len() as int) =~= items@);
    v
}

/// The items of `items` cloned, in reverse order.
fn reversed<T: Clone>(items: &Vec<T>) -> (r: Vec<T>)
    ensures
        reversed_clones(r@, items@),
{
    let mut r: Vec<T> = Vec::new();
    let mut i: usize = items.len();
    while i > 0
        invariant
            i <= items@.len(),
            r@.len() == items@.len() - i,
            forall|j: int| 0 <= j < r@.len() ==> cloned(items@[items@.len() - 1 - j], #[trigger] r@[j]),
        decreases i,
    {
        i = i - 1;
        r.push(items[i].clone());
    }
    r
}

/// `first` or `last`: the item at `pos` when the list has items.
fn end_item_of<V: Clone>(items: &Vec<ListItem<V>>, args: Vec<ListItem<V>>, method: &str, pos: usize) -> (r: Result<ListValue<V>, RuntimeError>)
    requires
        items@.len() > 0 ==> pos < items@.len(),
    ensures
        end_item(r, items@, args@, method@, pos as int),
{
    if args.len() > 1 {
        return Err(arity_error(method, "() takes at most one argument (default value)"));
    }
    if items.len() > 0 {
        Ok(ListValue::Item(items[pos].clone()))
    } else if args.len() == 1 {
        let mut args = args;
        let d = args.pop().unwrap();
        Ok(ListValue::Item(d))
    } else {
        Ok(ListValue::Nil)
    }
}

/// `join`.
fn join_method<V>(items: &Vec<ListItem<V>>, args: &Vec<ListItem<V>>) -> (r: Result<ListValue<V>, RuntimeError>)
    ensures
        join_gives(r, items@, args@),
{
    if args.len() > 1 {
        return Err(RuntimeError::ArityMismatch { message: "join() takes at most one argument".to_owned() });
    }
    if args.len() == 0 {
        return Ok(ListValue::Text(joined_texts(items, " ")));
    }
    match &args[0] {
        ListItem::Str(sep) => Ok(ListValue::Text(joined_texts(items, sep.as_str()))),
        _ => Err(RuntimeError::TypeError { message: "join() separator must be a string".to_owned() }),
    }
}

/// `index_of` (`want_index`) or `contains` with the argument `a`.
fn search_method<V>(items: &Vec<ListItem<V>>, a: &ListItem<V>, want_index: bool) -> (r: Result<ListValue<V>, RuntimeError>)
    ensures
        search_gives(r, items@, *a, want_index),
{
    if let ListItem::Other(_, _) = a {
        let mut i: usize = 0;
        while i < items.len()
            invariant
                i <= items@.len(),
                *a is Other,
                forall|j: int| 0 <= j < i ==> !(#[trigger] items@[j] is Other),
            decreases items@.len() - i,
        {
            if let ListItem::Other(_, _) = &items[i] {
                assert(items@[i as int] is Other);
                return Ok(ListValue::ByValueType);
            }
            i = i + 1;
        }
    }
    let o = find_item(items, a);
    if want_index {
        Ok(ListValue::Index(o))
    } else {
        proof {
            if let Some(i) = o {
                assert(same_item(items@[i as int], *a));
            }
        }
        Ok(ListValue::Bool(o.is_some()))
    }
}

/// `sum`, `product` or `average`: the numbers, or the type error `message`.
fn numbers_method<V>(items: &Vec<ListItem<V>>, message: &str) -> (r: Result<ListValue<V>, RuntimeError>)
    ensures
        numbers_gives(r, items@, message@),
{
    if numbers_only(items) {
        Ok(ListValue::Numbers(number_list(items)))
    } else {
        Err(RuntimeError::TypeError { message: message.to_owned() })
    }
}

/// `min` (`lower`) or `max`.
fn extreme_method<V>(items: &Vec<ListItem<V>>, method: &str, lower: bool) -> (r: Result<ListValue<V>, RuntimeError>)
    ensures
        extreme_gives(r, items@, method@, lower),
{
    if items.len() == 0 {
        let mut message = method.to_owned();
        message.append("() called on empty list");
        return Err(RuntimeError::InvalidOperation { message });
    }
    if !numbers_only(items) {
        let mut message = method.to_owned();
        message.append("() can only be called on lists of numbers");
        return Err(RuntimeError::TypeError { message });
    }
    let k = pick(items, lower);
    Ok(ListValue::Item(copy_item(&items[k])))
}

/// `to_string`: the texts of the items between brackets, separated by commas.
fn list_text<V>(items: &Vec<ListItem<V>>) -> (r: String)
    ensures
        r@ == "["@ + join_with(item_texts(items@), ", "@) + "]"@,
{
    let inner = joined_texts(items, ", ");
    let mut r = "[".to_owned();
    r.append(inner.as_str());
    r.append("]");
    r
}

/// Call the list method `method` on `items` with `args`.
pub fn call_list_method<V: Clone>(items: &mut Vec<ListItem<V>>, method: &str, args: Vec<ListItem<V>>) -> (r: Result<ListValue<V>, RuntimeError>)
    ensures
        list_method_gives(r, old(items)@, final(items)@, method@, args@),
{
    let n = args.len();
    if str_eq(method, "push") {
        if n != 1 {
            return Err(arity_error(method, "() takes exactly one argument"));
        }
        let mut args = args;
        let item = args.pop().unwrap();
        items.push(item);
        Ok(ListValue::Nil)
    } else if str_eq(method, "pop") {
        if n != 0 {
            return Err(arity_error(method, "() takes no arguments"));
        }
        match items.pop() {
            Some(x) => Ok(ListValue::Item(x)),
            None => Err(RuntimeError::InvalidOperation { message: "Cannot pop from empty list".to_owned() }),
        }
    } else if str_eq(method, "length") {
        if n != 0 {
            return Err(arity_error(method, "() takes no arguments"));
        }
        Ok(ListValue::Count(items.len()))
    } else if str_eq(method, "join") {
        join_method(items, &args)
    } else if str_eq(method, "index_of") || str_eq(method, "contains") {
        if n != 1 {
            return Err(arity_error(method, "() takes exactly one argument"));
        }
        search_method(items, &args[0], str_eq(method, "index_of"))
    } else if str_eq(method, "filter") || str_eq(method, "map") {
        if n != 1 {
            return Err(arity_error(method, "() takes exactly one argument"));
        }
        Ok(ListValue::ByValueType)
    } else if str_eq(method, "fold") {
        if n != 2 {
            return Err(arity_error(method, "() takes exactly two arguments"));
        }
        Ok(ListValue::ByValueType)
    } else if str_eq(method, "sum") || str_eq(method, "product") {
        if n != 0 {
            return Err(arity_error(method, "() takes no arguments"));
        }
        let mut message = method.to_owned();
        message.append("() can only be called on lists of numbers");
        numbers_method(items, message.as_str())
    } else if str_eq(method, "average") {
        if n != 0 {
            return Err(arity_error(method, "() takes no arguments"));
        }
        if items.len() == 0 {
            return Ok(ListValue::Nil);
        }
        numbers_method(items, "average() requires all elements to be numbers")
    } else if str_eq(method, "min") || str_eq(method, "max") {
        if n != 0 {
            return Err(arity_error(method, "() takes no arguments"));
        }
        extreme_method(items, method, str_eq(method, "min"))
    } else if str_eq(method, "sort") {
        if n != 0 {
            return Err(arity_error(method, "() takes no arguments"));
        }
        if can_sort(items) {
            Ok(ListValue::Items(sorted_items(items)))
        } else {
            Ok(ListValue::ByValueType)
        }
    } else if str_eq(method, "to_string") {
        if n != 0 {
            return Err(arity_error(method, "() takes no arguments"));
        }
        Ok(ListValue::Text(list_text(items)))
    } else if str_eq(method, "reverse") {
        if n != 0 {
            return Err(arity_error(method, "() takes no arguments"));
        }
        Ok(ListValue::Items(reversed(items)))
    } else if str_eq(method, "first") {
        end_item_of(items, args, method, 0)
    } else if str_eq(method, "last") {
        let pos: usize = if items.len() > 0 { items.len() - 1 } else { 0 };
        end_item_of(items, args, method, pos)
    } else {
        let mut m = "List has no method '".to_owned();
        m.append(method);
        m.append("'");
        Err(RuntimeError::MethodError { message: m })
    }
}

} // verus!
