use suji_runtime::error::RuntimeError;
use suji_runtime::range::{expand_range, expand_range_values, RangeBound};

#[test]
fn test_basic_range() {
    let items = expand_range(0, 3).unwrap();
    assert_eq!(items.len(), 3);
    assert_eq!(items[0], 0);
    assert_eq!(items[1], 1);
    assert_eq!(items[2], 2);
}

#[test]
fn test_negative_range() {
    let items = expand_range(-2, 2).unwrap();
    assert_eq!(items.len(), 4);
    assert_eq!(items[0], -2);
    assert_eq!(items[1], -1);
    assert_eq!(items[2], 0);
    assert_eq!(items[3], 1);
}

#[test]
fn test_empty_range_equal() {
    let items = expand_range(5, 5).unwrap();
    assert_eq!(items.len(), 0);
}

#[test]
fn test_empty_range_reverse() {
    let items = expand_range(5, 2).unwrap();
    assert_eq!(items.len(), 0);
}

#[test]
fn test_single_element_range() {
    let items = expand_range(10, 11).unwrap();
    assert_eq!(items.len(), 1);
    assert_eq!(items[0], 10);
}

#[test]
fn test_large_negative_range() {
    let items = expand_range(-10, -5).unwrap();
    assert_eq!(items.len(), 5);
    assert_eq!(items[0], -10);
    assert_eq!(items[4], -6);
}

#[test]
fn test_range_size_limit() {
    // This should exceed our limit of 1,000,000 elements
    let result = expand_range(0, 2_000_000);
    assert!(matches!(result, Err(RuntimeError::InvalidOperation { .. })));
}

#[test]
fn test_range_from_spec_examples() {
    // 0..3 → [0, 1, 2]
    assert_eq!(expand_range(0, 3).unwrap(), vec![0, 1, 2]);
    // -2..2 → [-2, -1, 0, 1]
    assert_eq!(expand_range(-2, 2).unwrap(), vec![-2, -1, 0, 1]);
}

#[test]
fn range_limit_is_inclusive_and_message_counts_elements() {
    assert_eq!(expand_range(0, 1_000_000).unwrap().len(), 1_000_000);
    match expand_range(-1, 1_000_000) {
        Err(RuntimeError::InvalidOperation { message }) => {
            assert_eq!(message, "Range too large: 1000001 elements")
        }
        other => panic!("unexpected {:?}", other.map(|v| v.len())),
    }
    match expand_range(i64::MIN, i64::MAX) {
        Err(RuntimeError::InvalidOperation { message }) => {
            assert_eq!(message, "Range too large: 18446744073709551615 elements")
        }
        other => panic!("unexpected {:?}", other.map(|v| v.len())),
    }
}

fn type_message(r: Result<Vec<i64>, RuntimeError>) -> String {
    match r {
        Err(RuntimeError::TypeError { message }) => message,
        other => panic!("unexpected {:?}", other),
    }
}

#[test]
fn test_non_integer_bounds_error() {
    // 1.5..3 and 1..3.7: a bound with a fractional part
    let result = expand_range_values(&RangeBound::Fraction, &RangeBound::Whole(3));
    assert!(matches!(result, Err(RuntimeError::TypeError { .. })));

    let result = expand_range_values(&RangeBound::Whole(1), &RangeBound::Fraction);
    assert!(matches!(result, Err(RuntimeError::TypeError { .. })));
}

#[test]
fn test_expand_range_values() {
    let items = expand_range_values(&RangeBound::Whole(0), &RangeBound::Whole(3)).unwrap();
    assert_eq!(items.len(), 3);
    assert_eq!(items[0], 0);
    assert_eq!(items[1], 1);
    assert_eq!(items[2], 2);
}

#[test]
fn test_expand_range_values_type_error() {
    let result = expand_range_values(&RangeBound::Other("string".to_string()), &RangeBound::Whole(3));
    assert!(matches!(result, Err(RuntimeError::TypeError { .. })));

    let result = expand_range_values(&RangeBound::Whole(0), &RangeBound::Other("boolean".to_string()));
    assert!(matches!(result, Err(RuntimeError::TypeError { .. })));
}

#[test]
fn range_value_messages() {
    assert_eq!(
        type_message(expand_range_values(&RangeBound::Other("string".to_string()), &RangeBound::Fraction)),
        "Range start must be a number, got string"
    );
    assert_eq!(
        type_message(expand_range_values(&RangeBound::Fraction, &RangeBound::Other("nil".to_string()))),
        "Range end must be a number, got nil"
    );
    assert_eq!(
        type_message(expand_range_values(&RangeBound::Fraction, &RangeBound::Fraction)),
        "Range bounds must be integers"
    );
}
