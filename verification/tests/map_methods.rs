use suji_runtime::error::RuntimeError;
use suji_runtime::map_methods::{call_map_method, key_eq, MapArg, MapEntries, MapKey, MapValue};

#[derive(Debug, Clone, PartialEq)]
enum Val {
    Num(f64),
    Str(String),
    Bool(bool),
}

fn s(x: &str) -> MapKey {
    MapKey::Str(x.to_string())
}

fn n(x: f64) -> MapKey {
    MapKey::Number(x.to_bits())
}

fn key(k: MapKey) -> MapArg {
    MapArg::Key(k)
}

fn map_of(entries: Vec<(MapKey, Val)>) -> MapEntries<Val> {
    let mut m = MapEntries::new();
    for (k, v) in entries {
        m.insert(k, v);
    }
    m
}

fn bool_of(r: Result<MapValue<Val>, RuntimeError>) -> bool {
    match r {
        Ok(MapValue::Bool(b)) => b,
        other => panic!("expected a boolean, got {:?}", other),
    }
}

fn count_of(r: Result<MapValue<Val>, RuntimeError>) -> usize {
    match r {
        Ok(MapValue::Count(c)) => c,
        other => panic!("expected a count, got {:?}", other),
    }
}

#[test]
fn test_map_delete() {
    let mut map = map_of(vec![(s("a"), Val::Num(1.0)), (s("b"), Val::Num(2.0))]);

    // Delete existing key
    let result = call_map_method(&mut map, "delete", vec![key(s("a"))]);
    assert!(bool_of(result));
    assert_eq!(count_of(call_map_method(&mut map, "length", vec![])), 1);
    assert!(!bool_of(call_map_method(&mut map, "contains", vec![key(s("a"))])));

    // Delete non-existing key
    let result2 = call_map_method(&mut map, "delete", vec![key(s("x"))]);
    assert!(!bool_of(result2));
}

#[test]
fn test_map_contains_string_keys() {
    let mut map = map_of(vec![
        (s("name"), Val::Str("Alice".to_string())),
        (s("age"), Val::Num(30.0)),
        (s("city"), Val::Str("New York".to_string())),
    ]);

    // Test existing keys
    assert!(bool_of(call_map_method(&mut map, "contains", vec![key(s("name"))])));
    assert!(bool_of(call_map_method(&mut map, "contains", vec![key(s("age"))])));

    // Test non-existing key
    assert!(!bool_of(call_map_method(&mut map, "contains", vec![key(s("email"))])));
}

#[test]
fn test_map_contains_numeric_keys() {
    let mut map = map_of(vec![
        (n(1.0), Val::Num(100.0)),
        (n(2.0), Val::Num(85.0)),
        (n(3.0), Val::Num(92.0)),
    ]);

    // Test existing numeric key
    assert!(bool_of(call_map_method(&mut map, "contains", vec![key(n(2.0))])));

    // Test non-existing numeric key
    assert!(!bool_of(call_map_method(&mut map, "contains", vec![key(n(4.0))])));
}

#[test]
fn test_map_contains_boolean_keys() {
    let mut map = map_of(vec![
        (MapKey::Boolean(true), Val::Str("yes".to_string())),
        (MapKey::Boolean(false), Val::Str("no".to_string())),
    ]);

    // Test existing boolean key
    assert!(bool_of(call_map_method(&mut map, "contains", vec![key(MapKey::Boolean(true))])));

    // Test existing boolean key (false)
    assert!(bool_of(call_map_method(&mut map, "contains", vec![key(MapKey::Boolean(false))])));
}

#[test]
fn test_map_contains_tuple_keys() {
    let key1 = MapKey::Tuple(vec![s("user"), n(1.0)]);
    let key2 = MapKey::Tuple(vec![s("admin"), n(2.0)]);
    let mut map = map_of(vec![
        (key1, Val::Str("regular user".to_string())),
        (key2, Val::Str("administrator".to_string())),
    ]);

    // Test existing tuple key
    let tuple_key = MapKey::Tuple(vec![s("user"), n(1.0)]);
    assert!(bool_of(call_map_method(&mut map, "contains", vec![key(tuple_key)])));

    // Test non-existing tuple key
    let tuple_key2 = MapKey::Tuple(vec![s("guest"), n(3.0)]);
    assert!(!bool_of(call_map_method(&mut map, "contains", vec![key(tuple_key2)])));
}

#[test]
fn test_map_contains_arity_mismatch() {
    let mut map: MapEntries<Val> = MapEntries::new();

    // Test no arguments
    let result1 = call_map_method(&mut map, "contains", vec![]);
    assert!(matches!(result1, Err(RuntimeError::ArityMismatch { .. })));

    // Test too many arguments
    let result2 = call_map_method(&mut map, "contains", vec![key(s("key1")), key(s("key2"))]);
    assert!(matches!(result2, Err(RuntimeError::ArityMismatch { .. })));
}

#[test]
fn test_map_contains_invalid_key_type() {
    let mut map: MapEntries<Val> = MapEntries::new();

    // Test with invalid key type (list)
    let result = call_map_method(&mut map, "contains", vec![MapArg::NotKey("list".to_string())]);
    assert!(matches!(result, Err(RuntimeError::InvalidKeyType { .. })));
}

#[test]
fn test_map_keys_method() {
    let mut map = map_of(vec![
        (s("name"), Val::Str("Alice".to_string())),
        (s("age"), Val::Num(30.0)),
        (s("city"), Val::Str("New York".to_string())),
    ]);
    match call_map_method(&mut map, "keys", vec![]) {
        Ok(MapValue::Keys(keys)) => {
            assert_eq!(keys.len(), 3);
            // Order is preserved
            assert!(key_eq(&keys[0], &s("name")));
            assert!(key_eq(&keys[1], &s("age")));
            assert!(key_eq(&keys[2], &s("city")));
        },
        other => panic!("Expected list, got {:?}", other),
    }
}

#[test]
fn test_map_values_method() {
    let mut map = map_of(vec![
        (s("name"), Val::Str("Alice".to_string())),
        (s("age"), Val::Num(30.0)),
        (s("active"), Val::Bool(true)),
    ]);
    match call_map_method(&mut map, "values", vec![]) {
        Ok(MapValue::Values(values)) => {
            assert_eq!(values.len(), 3);
            // Order is preserved
            assert_eq!(values[0], Val::Str("Alice".to_string()));
            assert_eq!(values[1], Val::Num(30.0));
            assert_eq!(values[2], Val::Bool(true));
        },
        other => panic!("Expected list, got {:?}", other),
    }
}

#[test]
fn test_map_to_list_method() {
    let mut map = map_of(vec![(s("name"), Val::Str("Alice".to_string())), (s("age"), Val::Num(30.0))]);
    match call_map_method(&mut map, "to_list", vec![]) {
        Ok(MapValue::Pairs(pairs)) => {
            assert_eq!(pairs.len(), 2);
            // Check first pair
            assert!(key_eq(&pairs[0].0, &s("name")));
            assert_eq!(pairs[0].1, Val::Str("Alice".to_string()));
            // Check second pair
            assert!(key_eq(&pairs[1].0, &s("age")));
            assert_eq!(pairs[1].1, Val::Num(30.0));
        },
        other => panic!("Expected list, got {:?}", other),
    }
}

#[test]
fn test_map_length_method() {
    let mut map = map_of(vec![(s("a"), Val::Num(1.0)), (s("b"), Val::Num(2.0)), (s("c"), Val::Num(3.0))]);
    assert_eq!(count_of(call_map_method(&mut map, "length", vec![])), 3);
}

#[test]
fn test_map_keys_empty_map() {
    let mut map: MapEntries<Val> = MapEntries::new();
    match call_map_method(&mut map, "keys", vec![]) {
        Ok(MapValue::Keys(keys)) => assert_eq!(keys.len(), 0),
        other => panic!("Expected list, got {:?}", other),
    }
}

#[test]
fn test_map_values_empty_map() {
    let mut map: MapEntries<Val> = MapEntries::new();
    match call_map_method(&mut map, "values", vec![]) {
        Ok(MapValue::Values(values)) => assert_eq!(values.len(), 0),
        other => panic!("Expected list, got {:?}", other),
    }
}

#[test]
fn test_map_to_list_empty_map() {
    let mut map: MapEntries<Val> = MapEntries::new();
    match call_map_method(&mut map, "to_list", vec![]) {
        Ok(MapValue::Pairs(pairs)) => assert_eq!(pairs.len(), 0),
        other => panic!("Expected list, got {:?}", other),
    }
}

#[test]
fn test_map_length_empty_map() {
    let mut map: MapEntries<Val> = MapEntries::new();
    assert_eq!(count_of(call_map_method(&mut map, "length", vec![])), 0);
}

#[test]
fn test_map_keys_arity_mismatch() {
    let mut map: MapEntries<Val> = MapEntries::new();
    let result = call_map_method(&mut map, "keys", vec![key(s("arg"))]);
    assert!(matches!(result, Err(RuntimeError::MapMethodError { .. })));
}

#[test]
fn test_map_values_arity_mismatch() {
    let mut map: MapEntries<Val> = MapEntries::new();
    let result = call_map_method(&mut map, "values", vec![key(s("arg"))]);
    assert!(matches!(result, Err(RuntimeError::MapMethodError { .. })));
}

#[test]
fn test_map_to_list_arity_mismatch() {
    let mut map: MapEntries<Val> = MapEntries::new();
    let result = call_map_method(&mut map, "to_list", vec![key(s("arg"))]);
    assert!(matches!(result, Err(RuntimeError::MapMethodError { .. })));
}

#[test]
fn test_map_length_arity_mismatch() {
    let mut map: MapEntries<Val> = MapEntries::new();
    let result = call_map_method(&mut map, "length", vec![key(s("arg"))]);
    assert!(matches!(result, Err(RuntimeError::MapMethodError { .. })));
}

#[test]
fn test_map_keys_with_different_key_types() {
    let mut map = map_of(vec![
        (s("name"), Val::Str("Alice".to_string())),
        (n(1.0), Val::Str("first".to_string())),
        (MapKey::Boolean(true), Val::Str("yes".to_string())),
    ]);
    match call_map_method(&mut map, "keys", vec![]) {
        Ok(MapValue::Keys(keys)) => {
            assert_eq!(keys.len(), 3);
            assert!(key_eq(&keys[0], &s("name")));
            assert!(key_eq(&keys[1], &n(1.0)));
            assert!(key_eq(&keys[2], &MapKey::Boolean(true)));
        },
        other => panic!("Expected list, got {:?}", other),
    }
}

#[test]
fn test_map_to_list_with_different_key_types() {
    let mut map = map_of(vec![(s("name"), Val::Str("Alice".to_string())), (n(42.0), Val::Num(100.0))]);
    match call_map_method(&mut map, "to_list", vec![]) {
        Ok(MapValue::Pairs(pairs)) => {
            assert_eq!(pairs.len(), 2);
            assert!(key_eq(&pairs[0].0, &s("name")));
            assert_eq!(pairs[0].1, Val::Str("Alice".to_string()));
            assert!(key_eq(&pairs[1].0, &n(42.0)));
            assert_eq!(pairs[1].1, Val::Num(100.0));
        },
        other => panic!("Expected list, got {:?}", other),
    }
}

#[test]
fn map_method_messages_and_insertion() {
    let mut map = map_of(vec![(s("a"), Val::Num(1.0)), (s("b"), Val::Num(2.0)), (s("a"), Val::Num(3.0))]);
    // setting an existing key keeps its place
    match call_map_method(&mut map, "to_list", vec![]) {
        Ok(MapValue::Pairs(pairs)) => {
            assert_eq!(pairs.len(), 2);
            assert!(key_eq(&pairs[0].0, &s("a")));
            assert_eq!(pairs[0].1, Val::Num(3.0));
        },
        other => panic!("Expected list, got {:?}", other),
    }
    match call_map_method(&mut map, "keys", vec![key(s("x"))]) {
        Err(RuntimeError::MapMethodError { method, message }) => {
            assert_eq!(method, "keys");
            assert_eq!(message, "keys() takes no arguments");
        },
        other => panic!("unexpected {:?}", other),
    }
    match call_map_method(&mut map, "delete", vec![MapArg::NotKey("list".to_string())]) {
        Err(RuntimeError::InvalidKeyType { message }) => assert_eq!(message, "list cannot be used as a map key"),
        other => panic!("unexpected {:?}", other),
    }
    match call_map_method(&mut map, "frob", vec![]) {
        Err(RuntimeError::MethodError { message }) => assert_eq!(message, "Map has no method 'frob'"),
        other => panic!("unexpected {:?}", other),
    }
    // numbers are keyed by their bits: 0.0 and -0.0 are different keys
    let mut zeros = map_of(vec![(n(0.0), Val::Num(1.0))]);
    assert!(!bool_of(call_map_method(&mut zeros, "contains", vec![key(n(-0.0))])));
    assert!(!key_eq(&MapKey::Tuple(vec![s("a")]), &MapKey::Tuple(vec![s("a"), s("b")])));
}

#[test]
fn methods_test_map_delete() {
    let mut map = map_of(vec![(s("a"), Val::Num(1.0)), (s("b"), Val::Num(2.0))]);

    // Delete existing key
    let result = call_map_method(&mut map, "delete", vec![key(s("a"))]);
    assert!(bool_of(result));
    assert_eq!(count_of(call_map_method(&mut map, "length", vec![])), 1);
    assert!(!bool_of(call_map_method(&mut map, "contains", vec![key(s("a"))])));

    // Delete non-existing key
    let result2 = call_map_method(&mut map, "delete", vec![key(s("x"))]);
    assert!(!bool_of(result2));
}
