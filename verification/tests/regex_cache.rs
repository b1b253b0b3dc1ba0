use suji_runtime::error::RuntimeError;
use suji_runtime::regex_cache::{
    clear_regex_cache, compile_regex, regex_cache_stats, regex_match, regex_match_compiled, RegexCache,
};

#[test]
fn test_basic_regex_compilation() {
    let mut cache = RegexCache::new();
    clear_regex_cache(&mut cache);

    let result = compile_regex(&mut cache, r"^hello.*world$");
    assert!(result.is_ok());

    let regex = result.unwrap();
    assert!(regex.is_match("hello beautiful world"));
    assert!(!regex.is_match("goodbye world"));
}

#[test]
fn test_invalid_regex_pattern() {
    let mut cache = RegexCache::new();
    clear_regex_cache(&mut cache);

    let result = compile_regex(&mut cache, r"[invalid");
    assert!(matches!(result, Err(RuntimeError::RegexError { .. })));
}

#[test]
fn test_regex_caching() {
    let mut cache = RegexCache::new();
    clear_regex_cache(&mut cache);

    // First compilation
    let result1 = compile_regex(&mut cache, r"test\d+");
    assert!(result1.is_ok());

    // Second compilation should use cache
    let result2 = compile_regex(&mut cache, r"test\d+");
    assert!(result2.is_ok());

    // Both should work the same
    let regex1 = result1.unwrap();
    let regex2 = result2.unwrap();

    assert!(regex1.is_match("test123"));
    assert!(regex2.is_match("test123"));
    assert!(!regex1.is_match("test"));
    assert!(!regex2.is_match("test"));
}

#[test]
fn test_error_caching() {
    let mut cache = RegexCache::new();
    clear_regex_cache(&mut cache);

    // First attempt with invalid pattern
    let result1 = compile_regex(&mut cache, r"[invalid");
    assert!(matches!(result1, Err(RuntimeError::RegexError { .. })));

    // Second attempt should return cached error
    let result2 = compile_regex(&mut cache, r"[invalid");
    assert!(matches!(result2, Err(RuntimeError::RegexError { .. })));
}

#[test]
fn test_regex_match() {
    let mut cache = RegexCache::new();
    clear_regex_cache(&mut cache);

    // Test email pattern
    let email_pattern = r"^[^@\s]+@[^@\s]+\.[^@\s]+$";

    assert!(regex_match(&mut cache, "user@example.com", email_pattern).unwrap());
    assert!(!regex_match(&mut cache, "not-an-email", email_pattern).unwrap());
    assert!(!regex_match(&mut cache, "user@", email_pattern).unwrap());
}

#[test]
fn test_regex_match_compiled() {
    let mut cache = RegexCache::new();
    clear_regex_cache(&mut cache);

    let regex = compile_regex(&mut cache, r"^\w+$").unwrap();

    assert!(regex_match_compiled("hello", &regex));
    assert!(regex_match_compiled("test123", &regex));
    assert!(!regex_match_compiled("hello world", &regex));
    assert!(!regex_match_compiled("hello!", &regex));
}

#[test]
fn test_regex_from_spec_examples() {
    let mut cache = RegexCache::new();
    clear_regex_cache(&mut cache);

    // Example from spec: email validation
    let email_pattern = r"^[^@\s]+@[^@\s]+\.[^@\s]+$";
    assert!(regex_match(&mut cache, "ada@example.com", email_pattern).unwrap());
    assert!(!regex_match(&mut cache, "not_an_email", email_pattern).unwrap());

    // Example from spec: user ID pattern
    let user_pattern = r"^user_[0-9]+$";
    assert!(regex_match(&mut cache, "user_123", user_pattern).unwrap());
    assert!(regex_match(&mut cache, "user_0", user_pattern).unwrap());
    assert!(!regex_match(&mut cache, "user_", user_pattern).unwrap());
    assert!(!regex_match(&mut cache, "admin_123", user_pattern).unwrap());
}

#[test]
fn test_complex_patterns() {
    let mut cache = RegexCache::new();
    clear_regex_cache(&mut cache);

    // Test Unicode support
    let unicode_pattern = r"^\p{L}+$";
    assert!(regex_match(&mut cache, "hello", unicode_pattern).unwrap());
    assert!(regex_match(&mut cache, "café", unicode_pattern).unwrap());

    // Test case insensitive (using flags)
    let case_pattern = r"(?i)^HELLO$";
    assert!(regex_match(&mut cache, "hello", case_pattern).unwrap());
    assert!(regex_match(&mut cache, "HELLO", case_pattern).unwrap());
    assert!(regex_match(&mut cache, "HeLLo", case_pattern).unwrap());
}

#[test]
fn test_anchors_and_escapes() {
    let mut cache = RegexCache::new();
    clear_regex_cache(&mut cache);

    // Test anchors
    let anchored = r"^test$";
    assert!(regex_match(&mut cache, "test", anchored).unwrap());
    assert!(!regex_match(&mut cache, "testing", anchored).unwrap());
    assert!(!regex_match(&mut cache, "pretest", anchored).unwrap());

    // Test escaping special characters
    let literal_dot = r"test\.txt$";
    assert!(regex_match(&mut cache, "test.txt", literal_dot).unwrap());
    assert!(!regex_match(&mut cache, "testXtxt", literal_dot).unwrap());
}

#[test]
fn invalid_pattern_message_names_pattern_and_error() {
    let mut cache = RegexCache::new();
    let expected_error = regex::Regex::new("[invalid").unwrap_err().to_string();
    match compile_regex(&mut cache, "[invalid") {
        Err(RuntimeError::RegexError { message }) => {
            assert_eq!(message, format!("Invalid regex pattern '[invalid': {}", expected_error));
        }
        _ => panic!("expected a regex error"),
    }
    // The cached failure gives the same message.
    match compile_regex(&mut cache, "[invalid") {
        Err(RuntimeError::RegexError { message }) => {
            assert_eq!(message, format!("Invalid regex pattern '[invalid': {}", expected_error));
        }
        _ => panic!("expected a regex error"),
    }
}

#[test]
fn regex_match_reports_invalid_pattern() {
    let mut cache = RegexCache::new();
    assert!(matches!(
        regex_match(&mut cache, "text", "(unclosed"),
        Err(RuntimeError::RegexError { .. })
    ));
}

#[test]
fn cache_stats_count_patterns_and_successes() {
    let mut cache = RegexCache::new();
    assert_eq!(regex_cache_stats(&cache), (0, 0));
    compile_regex(&mut cache, "a+").unwrap();
    compile_regex(&mut cache, "a+").unwrap();
    assert!(compile_regex(&mut cache, "[bad").is_err());
    compile_regex(&mut cache, "b*").unwrap();
    assert_eq!(regex_cache_stats(&cache), (3, 2));
    clear_regex_cache(&mut cache);
    assert_eq!(regex_cache_stats(&cache), (0, 0));
}

#[test]
fn compiled_regex_keeps_its_source() {
    let mut cache = RegexCache::new();
    let regex = compile_regex(&mut cache, r"x\d").unwrap();
    assert_eq!(regex.as_str(), r"x\d");
    let copy = regex.clone();
    assert_eq!(copy.as_str(), r"x\d");
    assert!(copy.is_match("x1"));
    assert!(!copy.is_match("xy"));
}
