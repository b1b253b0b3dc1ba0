use suji_runtime::env::EnvStore;
use suji_runtime::error::RuntimeError;

#[test]
fn test_basic_variable_operations() {
    let mut store: EnvStore<f64> = EnvStore::new();
    let env = store.new_root();

    // Define a variable
    store.define_or_set(env, "x", 42.0);

    // Get the variable
    assert_eq!(store.get(env, "x").unwrap(), 42.0);

    // Update the variable
    store.define_or_set(env, "x", 100.0);
    assert_eq!(store.get(env, "x").unwrap(), 100.0);

    // Try to get undefined variable
    assert!(matches!(
        store.get(env, "y"),
        Err(RuntimeError::UndefinedVariable { .. })
    ));
}

#[test]
fn test_nested_scopes() {
    let mut store: EnvStore<f64> = EnvStore::new();
    let parent_env = store.new_root();
    store.define_or_set(parent_env, "x", 1.0);
    store.define_or_set(parent_env, "y", 2.0);

    let child_env = store.new_child(parent_env);
    store.define_or_set(child_env, "y", 20.0); // Shadow parent's y
    store.define_or_set(child_env, "z", 3.0);

    // Child can access parent's x
    assert_eq!(store.get(child_env, "x").unwrap(), 1.0);

    // Child's y shadows parent's y
    assert_eq!(store.get(child_env, "y").unwrap(), 20.0);

    // Child has its own z
    assert_eq!(store.get(child_env, "z").unwrap(), 3.0);

    // Parent still has its own y
    assert_eq!(store.get(parent_env, "y").unwrap(), 2.0);

    // Parent doesn't have z
    assert!(matches!(
        store.get(parent_env, "z"),
        Err(RuntimeError::UndefinedVariable { .. })
    ));
}

#[test]
fn test_set_existing() {
    let mut store: EnvStore<f64> = EnvStore::new();
    let parent_env = store.new_root();
    store.define_or_set(parent_env, "x", 1.0);

    let child_env = store.new_child(parent_env);

    // Set existing variable in parent from child
    store.set_existing(child_env, "x", 100.0).unwrap();
    assert_eq!(store.get(parent_env, "x").unwrap(), 100.0);

    // Set non-existing variable creates it in current scope
    store.set_existing(child_env, "y", 2.0).unwrap();
    assert_eq!(store.get(child_env, "y").unwrap(), 2.0);
    assert!(matches!(
        store.get(parent_env, "y"),
        Err(RuntimeError::UndefinedVariable { .. })
    ));
}

#[test]
fn undefined_variable_error_names_the_variable() {
    let mut store: EnvStore<i64> = EnvStore::new();
    let env = store.new_root();
    match store.get(env, "missing") {
        Err(RuntimeError::UndefinedVariable { name }) => assert_eq!(name, "missing"),
        other => panic!("unexpected result {:?}", other),
    }
}

#[test]
fn contains_searches_the_parent_chain() {
    let mut store: EnvStore<i64> = EnvStore::new();
    let root = store.new_root();
    let mid = store.new_child(root);
    let leaf = store.new_child(mid);
    store.define_or_set(root, "a", 1);
    store.define_or_set(mid, "b", 2);
    assert!(store.contains(leaf, "a"));
    assert!(store.contains(leaf, "b"));
    assert!(!store.contains(root, "b"));
    assert!(!store.contains(leaf, "c"));
}

#[test]
fn sibling_scopes_share_their_parent() {
    let mut store: EnvStore<i64> = EnvStore::new();
    let root = store.new_root();
    let left = store.new_child(root);
    let right = store.new_child(root);
    store.define_or_set(root, "shared", 1);
    store.set_existing(left, "shared", 5).unwrap();
    assert_eq!(store.get(right, "shared").unwrap(), 5);
    store.define_or_set(left, "own", 7);
    assert!(!store.contains(right, "own"));
}

#[test]
fn set_existing_updates_the_nearest_binding() {
    let mut store: EnvStore<i64> = EnvStore::new();
    let root = store.new_root();
    let mid = store.new_child(root);
    let leaf = store.new_child(mid);
    store.define_or_set(root, "v", 1);
    store.define_or_set(mid, "v", 2);
    store.set_existing(leaf, "v", 3).unwrap();
    assert_eq!(store.get(mid, "v").unwrap(), 3);
    assert_eq!(store.get(root, "v").unwrap(), 1);
    assert_eq!(store.binding_count(leaf), 0);
}

#[test]
fn names_in_insertion_order_with_shadowing() {
    let mut store: EnvStore<i64> = EnvStore::new();
    let root = store.new_root();
    store.define_or_set(root, "x", 1);
    store.define_or_set(root, "y", 2);
    store.define_or_set(root, "x", 3);
    let child = store.new_child(root);
    store.define_or_set(child, "z", 4);
    store.define_or_set(child, "y", 5);
    assert_eq!(store.local_names(root), vec!["x".to_string(), "y".to_string()]);
    assert_eq!(store.binding_count(root), 2);
    assert_eq!(store.local_names(child), vec!["z".to_string(), "y".to_string()]);
    assert_eq!(
        store.all_names(child),
        vec!["z".to_string(), "y".to_string(), "x".to_string()]
    );
}

#[test]
fn new_child_starts_empty() {
    let mut store: EnvStore<i64> = EnvStore::new();
    let root = store.new_root();
    store.define_or_set(root, "x", 1);
    let child = store.new_child(root);
    assert_eq!(store.binding_count(child), 0);
    assert!(store.local_names(child).is_empty());
    assert_eq!(store.all_names(child), vec!["x".to_string()]);
    assert_eq!(store.get(child, "x").unwrap(), 1);
}

#[test]
fn default_store_has_no_scopes_until_one_is_made() {
    let mut store: EnvStore<i64> = EnvStore::default();
    let root = store.new_root();
    assert_eq!(store.binding_count(root), 0);
    assert!(store.all_names(root).is_empty());
}
