use suji_runtime::error::RuntimeError;
use suji_runtime::module::{ModuleRegistry, ModuleValue};

type Value = ModuleValue<String>;

fn func(name: &str) -> Value {
    ModuleValue::Item(format!("<function {}>", name))
}

fn module(entries: Vec<(&str, Value)>) -> Value {
    ModuleValue::Module(entries.into_iter().map(|(k, v)| (k.to_string(), v)).collect())
}

/// The standard module's layout: functions, and nested modules of functions.
fn std_module() -> Value {
    module(vec![
        ("println", func("println")),
        ("print", func("print")),
        ("json", module(vec![("parse", func("json:parse")), ("generate", func("json:generate"))])),
        ("yaml", module(vec![("parse", func("yaml:parse")), ("generate", func("yaml:generate"))])),
        ("version", ModuleValue::Item("1".to_string())),
    ])
}

fn error_message<T: std::fmt::Debug>(r: Result<T, RuntimeError>) -> String {
    match r {
        Err(RuntimeError::InvalidOperation { message }) => message,
        other => panic!("unexpected result {:?}", other),
    }
}

#[test]
fn test_module_registry_creation() {
    let registry = ModuleRegistry::new(std_module());
    assert!(registry.has_module("std"));
    assert!(!registry.has_module("nonexistent"));
}

#[test]
fn test_std_module_resolution() {
    let registry = ModuleRegistry::new(std_module());

    // Test resolving the std module
    let std_module = registry.resolve_module("std").unwrap();
    assert!(matches!(std_module, ModuleValue::Module(_)));
}

#[test]
fn test_std_println_resolution() {
    let registry = ModuleRegistry::new(std_module());

    // Test resolving println from std module
    let println_func = registry.resolve_module_item("std", "println").unwrap();
    assert!(matches!(println_func, ModuleValue::Item(_)));
}

#[test]
fn test_module_not_found() {
    let registry = ModuleRegistry::new(std_module());

    let result = registry.resolve_module("nonexistent");
    assert!(result.is_err());
    assert!(error_message(result).contains("Module 'nonexistent' not found"));
}

#[test]
fn test_item_not_found() {
    let registry = ModuleRegistry::new(std_module());

    let result = registry.resolve_module_item("std", "nonexistent");
    assert!(result.is_err());
    assert!(error_message(result).contains("Item 'nonexistent' not found"));
}

#[test]
fn test_nested_module_resolution() {
    let registry = ModuleRegistry::new(std_module());

    // Test resolving json:parse from std:json
    let parse_func = registry.resolve_nested_module_item("std:json", "parse").unwrap();
    assert!(matches!(parse_func, ModuleValue::Item(_)));

    // Test resolving json:generate from std:json
    let generate_func = registry.resolve_nested_module_item("std:json", "generate").unwrap();
    assert!(matches!(generate_func, ModuleValue::Item(_)));
}

#[test]
fn test_nested_module_resolution_errors() {
    let registry = ModuleRegistry::new(std_module());

    // Test nonexistent nested module
    let result = registry.resolve_nested_module_item("std:nonexistent", "parse");
    assert!(result.is_err());
    assert!(error_message(result).contains("Module 'nonexistent' not found"));

    // Test nonexistent item in nested module
    let result = registry.resolve_nested_module_item("std:json", "nonexistent");
    assert!(result.is_err());
    assert!(error_message(result).contains("Item 'nonexistent' not found"));

    // Test invalid module path
    let result = registry.resolve_nested_module_item("", "parse");
    assert!(result.is_err());
    let error_msg = error_message(result);
    assert!(error_msg.contains("Module '' not found"));
}

#[test]
fn resolution_messages_are_exact() {
    let registry = ModuleRegistry::new(std_module());
    assert_eq!(
        error_message(registry.resolve_module_item("std", "missing")),
        "Item 'missing' not found in module 'std'"
    );
    assert_eq!(
        error_message(registry.resolve_nested_module_item("std:json:deeper", "x")),
        "Module 'deeper' not found in 'std:json'"
    );
    assert_eq!(
        error_message(registry.resolve_nested_module_item("std:println:x", "y")),
        "'println' is not a module in 'std:println'"
    );
    assert_eq!(
        error_message(registry.resolve_nested_module_item("std:json", "missing")),
        "Item 'missing' not found in module 'std:json'"
    );
    assert_eq!(
        error_message(registry.resolve_nested_module_item("std:version", "x")),
        "'version' is not a module in 'std'"
    );
}

#[test]
fn items_of_a_value_that_is_not_a_map() {
    let mut registry = ModuleRegistry::new(std_module());
    registry.register_file_module("plain".to_string(), ModuleValue::Item("42".to_string()));
    assert!(registry.has_module("plain"));
    assert_eq!(
        error_message(registry.resolve_module_item("plain", "x")),
        "Module 'plain' is not a valid module (not a map)"
    );
    assert_eq!(
        error_message(registry.resolve_nested_module_item("plain", "x")),
        "Module 'plain' is not a valid module (not a map)"
    );
    assert_eq!(
        error_message(registry.resolve_nested_module_item("plain:inner", "x")),
        "'plain' is not a valid module (not a map)"
    );
}

#[test]
fn builtins_come_before_file_modules() {
    let mut registry = ModuleRegistry::new(std_module());
    registry.register_file_module("std".to_string(), module(vec![]));
    registry.register_file_module("util".to_string(), module(vec![("helper", func("helper"))]));
    assert!(matches!(registry.resolve_module_item("std", "println"), Ok(ModuleValue::Item(_))));
    assert!(matches!(
        registry.resolve_module_item("util", "helper"),
        Ok(ModuleValue::Item(name)) if name == "<function helper>"
    ));
    let custom = registry.with_custom_std(module(vec![("only", func("only"))]));
    assert!(custom.resolve_module_item("std", "println").is_err());
    assert!(matches!(
        custom.resolve_nested_module_item("std", "only"),
        Ok(ModuleValue::Item(name)) if name == "<function only>"
    ));
    assert!(custom.has_module("util"));
}
