use suji_runtime::binary_ops::{eval_binary_op, eval_unary_op, BinaryOp, BinaryValue, Operand, UnaryOp, UnaryValue};
use suji_runtime::error::RuntimeError;
use suji_runtime::list_methods::ListItem;

type Op = Operand<()>;
type Item = ListItem<()>;

fn number(n: f64) -> Op {
    Operand::Number(n.to_bits())
}

fn string(s: &str) -> Op {
    Operand::Str(s.to_string())
}

fn item(n: f64) -> Item {
    let t = if n.fract() == 0.0 { format!("{}", n as i64) } else { format!("{}", n) };
    ListItem::Number(n.to_bits(), t)
}

/// The floating-point operation that `Arithmetic` hands over, done here to
/// check the operands against the expected value.
fn finish(op: BinaryOp, v: BinaryValue<()>) -> f64 {
    match v {
        BinaryValue::Arithmetic(a, b) => {
            let (a, b) = (f64::from_bits(a), f64::from_bits(b));
            match op {
                BinaryOp::Add => a + b,
                BinaryOp::Subtract => a - b,
                BinaryOp::Multiply => a * b,
                BinaryOp::Divide => a / b,
                BinaryOp::Modulo => a % b,
                _ => a.powf(b),
            }
        }
        other => panic!("unexpected {:?}", other),
    }
}

fn arithmetic() {
    let result = eval_binary_op(BinaryOp::Add, number(2.0), number(3.0)).unwrap();
    assert_eq!(result, BinaryValue::Arithmetic(2.0f64.to_bits(), 3.0f64.to_bits()));
    assert_eq!(finish(BinaryOp::Add, result), 5.0);

    let result = eval_binary_op(BinaryOp::Multiply, number(4.0), number(5.0)).unwrap();
    assert_eq!(finish(BinaryOp::Multiply, result), 20.0);
}

#[test]
fn binary_test_arithmetic() {
    arithmetic();
}

#[test]
fn operators_test_arithmetic() {
    arithmetic();
}

fn string_concatenation() {
    let result = eval_binary_op(BinaryOp::Add, string("hello"), string(" world")).unwrap();
    assert_eq!(result, BinaryValue::Text("hello world".to_string()));
}

#[test]
fn binary_test_string_concatenation() {
    string_concatenation();
}

#[test]
fn operators_test_string_concatenation() {
    string_concatenation();
}

fn comparisons() {
    let result = eval_binary_op(BinaryOp::Less, number(2.0), number(3.0)).unwrap();
    assert_eq!(result, BinaryValue::Bool(true));

    let result = eval_binary_op(BinaryOp::Equal, number(5.0), number(5.0)).unwrap();
    assert_eq!(result, BinaryValue::Bool(true));
}

#[test]
fn binary_test_comparisons() {
    comparisons();
}

#[test]
fn operators_test_comparisons() {
    comparisons();
}

#[test]
fn binary_test_list_concatenation() {
    let list1 = vec![item(1.0), item(2.0)];
    let list2 = vec![item(3.0), item(4.0)];
    let result = eval_binary_op(BinaryOp::Add, Operand::List(list1.clone()), Operand::List(list2.clone())).unwrap();
    assert_eq!(result, BinaryValue::Items(vec![item(1.0), item(2.0), item(3.0), item(4.0)]));

    // Test pass-by-value semantics (original lists unchanged)
    assert_eq!(list1, vec![item(1.0), item(2.0)]);
    assert_eq!(list2, vec![item(3.0), item(4.0)]);
}

#[test]
fn operators_test_list_concatenation() {
    // Test basic list concatenation
    let list1 = vec![item(1.0), item(2.0)];
    let list2 = vec![item(3.0), item(4.0)];
    let result = eval_binary_op(BinaryOp::Add, Operand::List(list1.clone()), Operand::List(list2.clone())).unwrap();
    assert_eq!(result, BinaryValue::Items(vec![item(1.0), item(2.0), item(3.0), item(4.0)]));

    // Test empty list concatenation
    let empty: Vec<Item> = vec![];
    let numbers = vec![item(1.0), item(2.0)];
    let result1 = eval_binary_op(BinaryOp::Add, Operand::List(empty.clone()), Operand::List(numbers.clone())).unwrap();
    assert_eq!(result1, BinaryValue::Items(numbers.clone()));
    let result2 = eval_binary_op(BinaryOp::Add, Operand::List(numbers.clone()), Operand::List(empty.clone())).unwrap();
    assert_eq!(result2, BinaryValue::Items(numbers.clone()));

    // Test both empty lists
    let result3 = eval_binary_op(BinaryOp::Add, Operand::List(empty.clone()), Operand::List(empty.clone())).unwrap();
    assert_eq!(result3, BinaryValue::Items(empty.clone()));

    // Test mixed types in lists
    let mixed1 = vec![item(1.0), ListItem::Str("hello".to_string()), ListItem::Bool(true)];
    let mixed2 = vec![item(2.5), ListItem::Str("world".to_string()), ListItem::Bool(false)];
    let result = eval_binary_op(BinaryOp::Add, Operand::List(mixed1.clone()), Operand::List(mixed2.clone())).unwrap();
    assert_eq!(
        result,
        BinaryValue::Items(vec![
            item(1.0),
            ListItem::Str("hello".to_string()),
            ListItem::Bool(true),
            item(2.5),
            ListItem::Str("world".to_string()),
            ListItem::Bool(false),
        ])
    );

    // Test pass-by-value semantics (original lists unchanged)
    assert_eq!(list1, vec![item(1.0), item(2.0)]);
    assert_eq!(list2, vec![item(3.0), item(4.0)]);
}

fn message_of(r: Result<BinaryValue<()>, RuntimeError>) -> String {
    match r {
        Err(RuntimeError::TypeError { message }) | Err(RuntimeError::InvalidOperation { message }) => message,
        other => panic!("unexpected {:?}", other),
    }
}

#[test]
fn test_list_concatenation_errors() {
    // Test list + number (should fail)
    let list = Operand::List(vec![item(1.0), item(2.0)]);
    let result = eval_binary_op(BinaryOp::Add, list, number(3.0));
    assert!(message_of(result).contains("Cannot add list and number"));

    // Test list + string (should fail)
    let list = Operand::List(vec![item(1.0), item(2.0)]);
    let result = eval_binary_op(BinaryOp::Add, list, string("hello"));
    assert!(message_of(result).contains("Cannot add list and string"));

    // Test list + map (should fail)
    let list = Operand::List(vec![item(1.0), item(2.0)]);
    let map = Operand::Other((), "map".to_string());
    let result = eval_binary_op(BinaryOp::Add, list, map);
    assert!(message_of(result).contains("Cannot add list and map"));
}

#[test]
fn operators_test_unary_operations() {
    let result = eval_unary_op(UnaryOp::Negate, number(42.0)).unwrap();
    assert_eq!(result, UnaryValue::Number((-42.0f64).to_bits()));

    let result = eval_unary_op(UnaryOp::Not, Operand::<()>::Bool(true)).unwrap();
    assert_eq!(result, UnaryValue::Bool(false));
}

#[test]
fn unary_type_errors() {
    match eval_unary_op(UnaryOp::Negate, string("x")) {
        Err(RuntimeError::TypeError { message }) => assert_eq!(message, "Cannot negate string"),
        other => panic!("unexpected {:?}", other),
    }
    match eval_unary_op(UnaryOp::Not, number(1.0)) {
        Err(RuntimeError::TypeError { message }) => assert_eq!(message, "Cannot apply logical NOT to number"),
        other => panic!("unexpected {:?}", other),
    }
    assert_eq!(eval_unary_op(UnaryOp::Negate, number(0.0)).unwrap(), UnaryValue::Number((-0.0f64).to_bits()));
}

#[test]
fn division_and_modulo_by_zero() {
    assert_eq!(message_of(eval_binary_op(BinaryOp::Divide, number(1.0), number(0.0))), "Division by zero");
    assert_eq!(message_of(eval_binary_op(BinaryOp::Divide, number(1.0), number(-0.0))), "Division by zero");
    assert_eq!(message_of(eval_binary_op(BinaryOp::Modulo, number(1.0), number(0.0))), "Modulo by zero");
    let r = eval_binary_op(BinaryOp::Divide, number(1.0), number(4.0)).unwrap();
    assert_eq!(finish(BinaryOp::Divide, r), 0.25);
}

#[test]
fn operator_type_error_messages() {
    assert_eq!(message_of(eval_binary_op(BinaryOp::Subtract, string("a"), number(1.0))), "Cannot subtract string and number");
    assert_eq!(message_of(eval_binary_op(BinaryOp::Multiply, Operand::Bool(true), number(1.0))), "Cannot multiply boolean and number");
    assert_eq!(message_of(eval_binary_op(BinaryOp::Power, string("a"), string("b"))), "Cannot exponentiate string and string");
    assert_eq!(message_of(eval_binary_op(BinaryOp::Less, string("a"), number(1.0))), "Cannot compare string and number");
    assert_eq!(message_of(eval_binary_op(BinaryOp::Modulo, Operand::List(vec![]), Operand::List(vec![]))), "Cannot modulo list and list");
}

#[test]
fn comparisons_agree_with_doubles_and_strings() {
    let vals = [0.0, -0.0, 1.0, -1.0, 2.5, f64::INFINITY, f64::NEG_INFINITY, f64::NAN];
    for a in vals {
        for b in vals {
            let check = |op: BinaryOp, want: bool| {
                assert_eq!(eval_binary_op(op, number(a), number(b)).unwrap(), BinaryValue::Bool(want), "{:?} {} {}", op, a, b);
            };
            check(BinaryOp::Less, a < b);
            check(BinaryOp::LessEqual, a <= b);
            check(BinaryOp::Greater, a > b);
            check(BinaryOp::GreaterEqual, a >= b);
            check(BinaryOp::Equal, a == b);
            check(BinaryOp::NotEqual, a != b);
        }
    }
    let words = ["", "a", "ab", "b", "Z", "é"];
    for a in words {
        for b in words {
            assert_eq!(eval_binary_op(BinaryOp::Less, string(a), string(b)).unwrap(), BinaryValue::Bool(a < b));
            assert_eq!(eval_binary_op(BinaryOp::GreaterEqual, string(a), string(b)).unwrap(), BinaryValue::Bool(a >= b));
            assert_eq!(eval_binary_op(BinaryOp::Equal, string(a), string(b)).unwrap(), BinaryValue::Bool(a == b));
        }
    }
}

#[test]
fn equality_across_types() {
    assert_eq!(eval_binary_op(BinaryOp::Equal, string("1"), number(1.0)).unwrap(), BinaryValue::Bool(false));
    assert_eq!(eval_binary_op(BinaryOp::NotEqual, Operand::Bool(true), number(1.0)).unwrap(), BinaryValue::Bool(true));
    assert_eq!(
        eval_binary_op(BinaryOp::Equal, Operand::<()>::List(vec![]), Operand::List(vec![])).unwrap(),
        BinaryValue::Bool(true)
    );
    assert_eq!(
        eval_binary_op(BinaryOp::Equal, Operand::Other((), "map".to_string()), Operand::Other((), "tuple".to_string())).unwrap(),
        BinaryValue::Bool(false)
    );
    assert_eq!(
        eval_binary_op(BinaryOp::Equal, Operand::Other((), "map".to_string()), Operand::Other((), "map".to_string())).unwrap(),
        BinaryValue::ByValueType
    );
}

#[test]
fn negating_twice_gives_the_number_back() {
    for n in [0.0, -0.0, 1.5, -7.0, f64::INFINITY, f64::NAN] {
        let once = match eval_unary_op(UnaryOp::Negate, number(n)).unwrap() {
            UnaryValue::Number(b) => b,
            other => panic!("unexpected {:?}", other),
        };
        assert_eq!(f64::from_bits(once).to_bits(), (-n).to_bits());
        let twice = eval_unary_op(UnaryOp::Negate, Operand::<()>::Number(once)).unwrap();
        assert_eq!(twice, UnaryValue::Number(n.to_bits()));
    }
}

#[test]
fn lists_compare_item_by_item() {
    let l = |v: Vec<Item>| Operand::<()>::List(v);
    let a = vec![item(1.0), ListItem::Str("x".to_string())];
    assert_eq!(eval_binary_op(BinaryOp::Equal, l(a.clone()), l(a.clone())).unwrap(), BinaryValue::Bool(true));
    assert_eq!(eval_binary_op(BinaryOp::Equal, l(a.clone()), l(vec![item(1.0)])).unwrap(), BinaryValue::Bool(false));
    assert_eq!(
        eval_binary_op(BinaryOp::NotEqual, l(a.clone()), l(vec![item(1.0), ListItem::Bool(true)])).unwrap(),
        BinaryValue::Bool(true)
    );
    // NaN is not equal to itself, so neither is a list holding it
    assert_eq!(eval_binary_op(BinaryOp::Equal, l(vec![item(f64::NAN)]), l(vec![item(f64::NAN)])).unwrap(), BinaryValue::Bool(false));
    let nested = vec![ListItem::Other((), "[1]".to_string())];
    assert_eq!(eval_binary_op(BinaryOp::Equal, l(nested.clone()), l(nested.clone())).unwrap(), BinaryValue::ByValueType);
    let mut differs = nested.clone();
    differs.push(item(1.0));
    let mut other = nested.clone();
    other.push(item(2.0));
    assert_eq!(eval_binary_op(BinaryOp::Equal, l(differs), l(other)).unwrap(), BinaryValue::Bool(false));
}
