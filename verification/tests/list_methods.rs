use suji_runtime::error::RuntimeError;
use suji_runtime::list_methods::{call_list_method, number_equal, number_less, ListItem, ListValue};
use suji_runtime::string_methods::{call_string_method, StrArg, StrValue};

type Item = ListItem<()>;

/// A number item, with the text that numbers print as.
fn num(n: f64) -> Item {
    let t = if n.fract() == 0.0 { format!("{}", n as i64) } else { format!("{}", n) };
    ListItem::Number(n.to_bits(), t)
}

fn text(s: &str) -> Item {
    ListItem::Str(s.to_string())
}

fn boolean(b: bool) -> Item {
    ListItem::Bool(b)
}

fn bits(ns: &[f64]) -> Vec<u64> {
    ns.iter().map(|n| n.to_bits()).collect()
}

fn total(v: &[u64]) -> f64 {
    v.iter().map(|b| f64::from_bits(*b)).sum()
}

fn product_of(v: &[u64]) -> f64 {
    v.iter().map(|b| f64::from_bits(*b)).product()
}

fn push_pop() {
    let mut list = vec![num(1.0), num(2.0)];

    // Test push
    let result = call_list_method(&mut list, "push", vec![num(3.0)]).unwrap();
    assert_eq!(result, ListValue::Nil);
    assert_eq!(list.len(), 3);
    assert_eq!(list[2], num(3.0));

    // Test pop
    let result = call_list_method(&mut list, "pop", vec![]).unwrap();
    assert_eq!(result, ListValue::Item(num(3.0)));
    assert_eq!(list.len(), 2);
}

#[test]
fn test_list_push_pop() {
    push_pop();
}

#[test]
fn methods_test_list_push_pop() {
    push_pop();
}

fn join() {
    let mut list = vec![text("a"), text("b"), text("c")];

    // Join with custom separator
    let result = call_list_method(&mut list, "join", vec![text(",")]).unwrap();
    assert_eq!(result, ListValue::Text("a,b,c".to_string()));

    // Join with default separator
    let result2 = call_list_method(&mut list, "join", vec![]).unwrap();
    assert_eq!(result2, ListValue::Text("a b c".to_string()));
}

#[test]
fn list_methods_test_list_join() {
    join();
}

#[test]
fn methods_test_list_join() {
    join();
}

fn index_of() {
    let mut list = vec![text("apple"), text("banana"), text("cherry")];
    let result = call_list_method(&mut list, "index_of", vec![text("banana")]).unwrap();
    assert_eq!(result, ListValue::Index(Some(1)));

    let result2 = call_list_method(&mut list, "index_of", vec![text("grape")]).unwrap();
    assert_eq!(result2, ListValue::Index(None));
}

#[test]
fn list_methods_test_list_index_of() {
    index_of();
}

#[test]
fn methods_test_list_index_of() {
    index_of();
}

fn sum() {
    let mut list = vec![num(1.0), num(2.0), num(3.0), num(4.0)];
    let result = call_list_method(&mut list, "sum", vec![]).unwrap();
    assert_eq!(result, ListValue::Numbers(bits(&[1.0, 2.0, 3.0, 4.0])));
    if let ListValue::Numbers(v) = result {
        assert_eq!(total(&v), 10.0);
    }
}

#[test]
fn list_methods_test_list_sum() {
    sum();
}

#[test]
fn methods_test_list_sum() {
    sum();
}

fn product() {
    let mut list = vec![num(2.0), num(3.0), num(4.0)];
    let result = call_list_method(&mut list, "product", vec![]).unwrap();
    assert_eq!(result, ListValue::Numbers(bits(&[2.0, 3.0, 4.0])));
    if let ListValue::Numbers(v) = result {
        assert_eq!(product_of(&v), 24.0);
    }
}

#[test]
fn list_methods_test_list_product() {
    product();
}

#[test]
fn methods_test_list_product() {
    product();
}

fn sum_with_non_numbers() {
    let mut list = vec![num(1.0), text("not a number"), num(3.0)];
    let result = call_list_method(&mut list, "sum", vec![]);
    assert!(matches!(result, Err(RuntimeError::TypeError { .. })));
}

#[test]
fn list_methods_test_list_sum_with_non_numbers() {
    sum_with_non_numbers();
}

#[test]
fn methods_test_list_sum_with_non_numbers() {
    sum_with_non_numbers();
}

#[test]
fn test_list_contains() {
    let mut list = vec![text("apple"), text("banana"), text("cherry")];

    // Test contains with existing item
    let result = call_list_method(&mut list, "contains", vec![text("banana")]).unwrap();
    assert_eq!(result, ListValue::Bool(true));

    // Test contains with non-existing item
    let result2 = call_list_method(&mut list, "contains", vec![text("grape")]).unwrap();
    assert_eq!(result2, ListValue::Bool(false));

    // Test contains with numbers
    let mut numbers = vec![num(1.0), num(2.0), num(3.0)];
    let result3 = call_list_method(&mut numbers, "contains", vec![num(2.0)]).unwrap();
    assert_eq!(result3, ListValue::Bool(true));
}

#[test]
fn test_list_reverse() {
    let mut list = vec![num(1.0), num(2.0), num(3.0)];
    let result = call_list_method(&mut list, "reverse", vec![]).unwrap();
    assert_eq!(result, ListValue::Items(vec![num(3.0), num(2.0), num(1.0)]));

    // Ensure original list is unchanged
    assert_eq!(list, vec![num(1.0), num(2.0), num(3.0)]);

    // Test with empty list
    let mut empty: Vec<Item> = vec![];
    let result2 = call_list_method(&mut empty, "reverse", vec![]).unwrap();
    assert_eq!(result2, ListValue::Items(vec![]));
}

#[test]
fn test_list_sort() {
    let mut list = vec![num(3.0), num(1.0), num(4.0), num(1.0), num(5.0)];
    let result = call_list_method(&mut list, "sort", vec![]).unwrap();
    assert_eq!(result, ListValue::Items(vec![num(1.0), num(1.0), num(3.0), num(4.0), num(5.0)]));

    // Test with strings
    let mut words = vec![text("zebra"), text("apple"), text("banana")];
    let result2 = call_list_method(&mut words, "sort", vec![]).unwrap();
    assert_eq!(result2, ListValue::Items(vec![text("apple"), text("banana"), text("zebra")]));

    // Test with booleans
    let mut bools = vec![boolean(true), boolean(false), boolean(true), boolean(false)];
    let result3 = call_list_method(&mut bools, "sort", vec![]).unwrap();
    assert_eq!(
        result3,
        ListValue::Items(vec![boolean(false), boolean(false), boolean(true), boolean(true)])
    );
}

#[test]
fn test_list_min() {
    let mut list = vec![num(85.0), num(92.0), num(78.0), num(96.0), num(88.0)];
    let result = call_list_method(&mut list, "min", vec![]).unwrap();
    assert_eq!(result, ListValue::Item(num(78.0)));

    // Test with negative numbers
    let mut temps = vec![num(-5.0), num(10.0), num(-15.0), num(20.0), num(0.0)];
    let result2 = call_list_method(&mut temps, "min", vec![]).unwrap();
    assert_eq!(result2, ListValue::Item(num(-15.0)));
}

#[test]
fn test_list_max() {
    let mut list = vec![num(85.0), num(92.0), num(78.0), num(96.0), num(88.0)];
    let result = call_list_method(&mut list, "max", vec![]).unwrap();
    assert_eq!(result, ListValue::Item(num(96.0)));

    // Test with negative numbers
    let mut temps = vec![num(-5.0), num(10.0), num(-15.0), num(20.0), num(0.0)];
    let result2 = call_list_method(&mut temps, "max", vec![]).unwrap();
    assert_eq!(result2, ListValue::Item(num(20.0)));
}

#[test]
fn test_list_min_max_errors() {
    // Test empty list errors for both min and max
    let mut empty_list: Vec<Item> = vec![];
    let min_result = call_list_method(&mut empty_list, "min", vec![]);
    assert!(matches!(min_result, Err(RuntimeError::InvalidOperation { .. })));
    let max_result = call_list_method(&mut empty_list, "max", vec![]);
    assert!(matches!(max_result, Err(RuntimeError::InvalidOperation { .. })));

    // Test non-number type errors for both min and max
    let mut mixed_list = vec![num(1.0), text("not a number"), num(3.0)];
    let min_type_result = call_list_method(&mut mixed_list, "min", vec![]);
    assert!(matches!(min_type_result, Err(RuntimeError::TypeError { .. })));
    let max_type_result = call_list_method(&mut mixed_list, "max", vec![]);
    assert!(matches!(max_type_result, Err(RuntimeError::TypeError { .. })));
}

#[test]
fn test_list_first() {
    let mut list = vec![text("first"), text("middle"), text("last")];
    let result = call_list_method(&mut list, "first", vec![]).unwrap();
    assert_eq!(result, ListValue::Item(text("first")));

    // Test with numbers
    let mut numbers = vec![num(10.0), num(20.0), num(30.0)];
    let result2 = call_list_method(&mut numbers, "first", vec![]).unwrap();
    assert_eq!(result2, ListValue::Item(num(10.0)));
}

#[test]
fn test_list_last() {
    let mut list = vec![text("first"), text("middle"), text("last")];
    let result = call_list_method(&mut list, "last", vec![]).unwrap();
    assert_eq!(result, ListValue::Item(text("last")));

    // Test with numbers
    let mut numbers = vec![num(10.0), num(20.0), num(30.0)];
    let result2 = call_list_method(&mut numbers, "last", vec![]).unwrap();
    assert_eq!(result2, ListValue::Item(num(30.0)));
}

#[test]
fn test_list_first_last_empty() {
    let mut empty_list: Vec<Item> = vec![];

    // Test first() on empty list returns nil
    let first_result = call_list_method(&mut empty_list, "first", vec![]).unwrap();
    assert_eq!(first_result, ListValue::Nil);

    // Test last() on empty list returns nil
    let last_result = call_list_method(&mut empty_list, "last", vec![]).unwrap();
    assert_eq!(last_result, ListValue::Nil);
}

#[test]
fn test_list_to_string() {
    let mut list = vec![num(1.0), text("test"), boolean(true)];
    let result = call_list_method(&mut list, "to_string", vec![]).unwrap();
    assert_eq!(result, ListValue::Text("[1, test, true]".to_string()));

    // Test empty list
    let mut empty_list: Vec<Item> = vec![];
    let result2 = call_list_method(&mut empty_list, "to_string", vec![]).unwrap();
    assert_eq!(result2, ListValue::Text("[]".to_string()));
}

#[test]
fn test_list_to_string_arity_mismatch() {
    let mut list = vec![num(1.0)];
    let result = call_list_method(&mut list, "to_string", vec![num(1.0)]);
    assert!(matches!(result, Err(RuntimeError::ArityMismatch { .. })));
}

#[test]
fn test_list_first_with_default() {
    // Test non-empty list ignores default
    let mut list = vec![num(1.0), num(2.0)];
    let result = call_list_method(&mut list, "first", vec![num(99.0)]).unwrap();
    assert_eq!(result, ListValue::Item(num(1.0)));

    // Test empty list uses default
    let mut empty: Vec<Item> = vec![];
    let result2 = call_list_method(&mut empty, "first", vec![text("default")]).unwrap();
    assert_eq!(result2, ListValue::Item(text("default")));

    // Test empty list without default returns nil
    let result3 = call_list_method(&mut empty, "first", vec![]).unwrap();
    assert_eq!(result3, ListValue::Nil);
}

#[test]
fn test_list_last_with_default() {
    // Test non-empty list ignores default
    let mut list = vec![num(1.0), num(2.0), num(3.0)];
    let result = call_list_method(&mut list, "last", vec![num(99.0)]).unwrap();
    assert_eq!(result, ListValue::Item(num(3.0)));

    // Test empty list uses default
    let mut empty: Vec<Item> = vec![];
    let result2 = call_list_method(&mut empty, "last", vec![text("default")]).unwrap();
    assert_eq!(result2, ListValue::Item(text("default")));

    // Test empty list without default returns nil
    let result3 = call_list_method(&mut empty, "last", vec![]).unwrap();
    assert_eq!(result3, ListValue::Nil);
}

#[test]
fn test_list_average() {
    // Test normal case
    let mut list = vec![num(1.0), num(2.0), num(3.0), num(4.0)];
    let result = call_list_method(&mut list, "average", vec![]).unwrap();
    assert_eq!(result, ListValue::Numbers(bits(&[1.0, 2.0, 3.0, 4.0])));
    if let ListValue::Numbers(v) = result {
        assert_eq!(total(&v) / v.len() as f64, 2.5);
    }

    // Test single element
    let mut single = vec![num(10.0)];
    let result2 = call_list_method(&mut single, "average", vec![]).unwrap();
    assert_eq!(result2, ListValue::Numbers(bits(&[10.0])));

    // Test empty list
    let mut empty: Vec<Item> = vec![];
    let result3 = call_list_method(&mut empty, "average", vec![]).unwrap();
    assert_eq!(result3, ListValue::Nil);
}

#[test]
fn test_list_average_mixed_types() {
    let mut list = vec![num(1.0), text("not a number"), num(3.0)];
    let result = call_list_method(&mut list, "average", vec![]);
    assert!(matches!(result, Err(RuntimeError::TypeError { .. })));
}

#[test]
fn test_list_first_last_arity_errors() {
    let mut list = vec![num(1.0)];

    // Test too many arguments for first
    let result = call_list_method(&mut list, "first", vec![num(1.0), num(2.0)]);
    assert!(matches!(result, Err(RuntimeError::ArityMismatch { .. })));

    // Test too many arguments for last
    let result2 = call_list_method(&mut list, "last", vec![num(1.0), num(2.0)]);
    assert!(matches!(result2, Err(RuntimeError::ArityMismatch { .. })));
}

#[test]
fn test_list_average_arity_error() {
    let mut list = vec![num(1.0)];

    // Test too many arguments for average
    let result = call_list_method(&mut list, "average", vec![num(1.0)]);
    assert!(matches!(result, Err(RuntimeError::ArityMismatch { .. })));
}

fn message_of(r: Result<ListValue<()>, RuntimeError>) -> String {
    match r {
        Err(RuntimeError::ArityMismatch { message })
        | Err(RuntimeError::InvalidOperation { message })
        | Err(RuntimeError::TypeError { message })
        | Err(RuntimeError::MethodError { message }) => message,
        other => panic!("unexpected {:?}", other),
    }
}

#[test]
fn empty_lists_and_messages() {
    let mut empty: Vec<Item> = vec![];
    assert_eq!(message_of(call_list_method(&mut empty, "min", vec![])), "min() called on empty list");
    assert_eq!(message_of(call_list_method(&mut empty, "max", vec![])), "max() called on empty list");
    assert_eq!(call_list_method(&mut empty, "average", vec![]).unwrap(), ListValue::Nil);
    assert_eq!(message_of(call_list_method(&mut empty, "pop", vec![])), "Cannot pop from empty list");
    assert_eq!(message_of(call_list_method(&mut empty, "push", vec![])), "push() takes exactly one argument");
    assert_eq!(message_of(call_list_method(&mut empty, "fold", vec![num(0.0)])), "fold() takes exactly two arguments");
    assert_eq!(message_of(call_list_method(&mut empty, "join", vec![text(","), text(",")])), "join() takes at most one argument");
    assert_eq!(message_of(call_list_method(&mut empty, "shuffle", vec![])), "List has no method 'shuffle'");
    assert_eq!(call_list_method(&mut empty, "length", vec![]).unwrap(), ListValue::Count(0));
    assert_eq!(call_list_method(&mut empty, "join", vec![]).unwrap(), ListValue::Text(String::new()));
    assert_eq!(call_list_method(&mut empty, "sort", vec![]).unwrap(), ListValue::Items(vec![]));
    assert_eq!(call_list_method(&mut empty, "sum", vec![]).unwrap(), ListValue::Numbers(vec![]));
}

#[test]
fn type_error_messages() {
    let mut mixed = vec![num(1.0), boolean(true)];
    assert_eq!(message_of(call_list_method(&mut mixed, "sum", vec![])), "sum() can only be called on lists of numbers");
    assert_eq!(message_of(call_list_method(&mut mixed, "product", vec![])), "product() can only be called on lists of numbers");
    assert_eq!(message_of(call_list_method(&mut mixed, "min", vec![])), "min() can only be called on lists of numbers");
    assert_eq!(message_of(call_list_method(&mut mixed, "max", vec![])), "max() can only be called on lists of numbers");
    assert_eq!(message_of(call_list_method(&mut mixed, "average", vec![])), "average() requires all elements to be numbers");
    assert_eq!(message_of(call_list_method(&mut mixed, "join", vec![num(1.0)])), "join() separator must be a string");
}

#[test]
fn join_uses_the_text_of_each_item() {
    let mut list = vec![num(1.5), boolean(false), text("x"), ListItem::Other((), "[1, 2]".to_string())];
    let r = call_list_method(&mut list, "join", vec![text("-")]).unwrap();
    assert_eq!(r, ListValue::Text("1.5-false-x-[1, 2]".to_string()));
}

#[test]
fn split_then_join_gives_the_string_back() {
    for (s, sep) in [("a,,b,", ","), ("hello world", " "), ("abc", ""), ("", "--"), ("x--y", "--")] {
        let pieces = match call_string_method(s, "split", vec![StrArg::Str(sep.to_string())]).unwrap() {
            StrValue::List(v) => v,
            other => panic!("unexpected {:?}", other),
        };
        let mut items: Vec<Item> = pieces.into_iter().map(ListItem::Str).collect();
        let joined = call_list_method(&mut items, "join", vec![text(sep)]).unwrap();
        assert_eq!(joined, ListValue::Text(s.to_string()), "{:?} on {:?}", s, sep);
    }
}

#[test]
fn index_of_and_contains_by_kind() {
    let mut list = vec![num(0.0), boolean(true), text("1"), num(1.0), num(f64::NAN)];
    // -0.0 equals 0.0, as doubles compare
    assert_eq!(call_list_method(&mut list, "index_of", vec![num(-0.0)]).unwrap(), ListValue::Index(Some(0)));
    // items of another kind are never equal
    assert_eq!(call_list_method(&mut list, "index_of", vec![num(1.0)]).unwrap(), ListValue::Index(Some(3)));
    assert_eq!(call_list_method(&mut list, "index_of", vec![boolean(true)]).unwrap(), ListValue::Index(Some(1)));
    assert_eq!(call_list_method(&mut list, "contains", vec![boolean(false)]).unwrap(), ListValue::Bool(false));
    // NaN equals nothing, itself included
    assert_eq!(call_list_method(&mut list, "contains", vec![num(f64::NAN)]).unwrap(), ListValue::Bool(false));
    // a compound argument equals no string, boolean or number
    assert_eq!(
        call_list_method(&mut list, "contains", vec![ListItem::Other((), "[]".to_string())]).unwrap(),
        ListValue::Bool(false)
    );
    // and is compared with compound items by the value type
    list.push(ListItem::Other((), "[]".to_string()));
    assert_eq!(
        call_list_method(&mut list, "index_of", vec![ListItem::Other((), "[]".to_string())]).unwrap(),
        ListValue::ByValueType
    );
}

#[test]
fn sort_of_lists_whose_order_is_unknown() {
    let mut mixed = vec![num(1.0), text("a")];
    assert_eq!(call_list_method(&mut mixed, "sort", vec![]).unwrap(), ListValue::ByValueType);
    let mut with_nan = vec![num(1.0), num(f64::NAN)];
    assert_eq!(call_list_method(&mut with_nan, "sort", vec![]).unwrap(), ListValue::ByValueType);
    let mut negatives = vec![num(-1.0), num(-3.5), num(f64::INFINITY), num(f64::NEG_INFINITY), num(2.0)];
    assert_eq!(
        call_list_method(&mut negatives, "sort", vec![]).unwrap(),
        ListValue::Items(vec![num(f64::NEG_INFINITY), num(-3.5), num(-1.0), num(2.0), num(f64::INFINITY)])
    );
}

#[test]
fn comparing_doubles_by_their_bits() {
    let vals = [0.0, -0.0, 1.0, -1.0, 2.5, -2.5, f64::INFINITY, f64::NEG_INFINITY, f64::NAN, 1e-300, -1e300];
    for a in vals {
        for b in vals {
            assert_eq!(number_less(a.to_bits(), b.to_bits()), a < b, "{} < {}", a, b);
            assert_eq!(number_equal(a.to_bits(), b.to_bits()), a == b, "{} == {}", a, b);
        }
    }
}

#[test]
fn min_and_max_keep_the_first_of_equal_numbers() {
    let mut list = vec![num(2.0), num(0.0), num(-0.0), num(7.0), num(7.0)];
    assert_eq!(call_list_method(&mut list, "min", vec![]).unwrap(), ListValue::Item(num(0.0)));
    assert_eq!(call_list_method(&mut list, "max", vec![]).unwrap(), ListValue::Item(num(7.0)));
}

#[test]
fn closures_go_to_the_value_type() {
    let mut list = vec![num(1.0), num(2.0)];
    for m in ["filter", "map"] {
        assert_eq!(call_list_method(&mut list, m, vec![num(1.0)]).unwrap(), ListValue::ByValueType, "{}", m);
    }
    assert_eq!(call_list_method(&mut list, "fold", vec![num(0.0), num(1.0)]).unwrap(), ListValue::ByValueType);
    assert_eq!(list, vec![num(1.0), num(2.0)]);
}
