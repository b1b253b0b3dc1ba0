//! The operators on values: which operand kinds each accepts, the errors it
//! raises, and its result where that needs no floating-point arithmetic
//! (negation, logical not, concatenation and comparison).

use vstd::prelude::*;
use crate::error::RuntimeError;
use crate::list_methods::{is_nan, number_key, number_less, same, same_item, ListItem};
use crate::str_ops::{lex_lt, str_lt};
use crate::text::str_eq;

verus! {

/// A binary operator.
#[derive(Debug, Clone, Copy, PartialEq, Eq, Structural)]
pub enum BinaryOp {
    Add,
    Subtract,
    Multiply,
    Divide,
    Modulo,
    Power,
    Equal,
    NotEqual,
    Less,
    LessEqual,
    Greater,
    GreaterEqual,
}

/// An operand, as the operators read it.
#[derive(Debug)]
pub enum Operand<V> {
    /// A number: the bits of its IEEE 754 double.
    Number(u64),
    /// A boolean.
    Bool(bool),
    /// A string.
    Str(String),
    /// A list.
    List(Vec<ListItem<V>>),
    /// Any other value (a map, a tuple, a regex, a function, nil), and the
    /// name of its type.
    Other(V, String),
}

/// What a binary operator gives.
#[derive(Debug, PartialEq)]
pub enum BinaryValue<V> {
    /// The floating-point operation of the operator on two numbers, given by
    /// the bits of their doubles; the arithmetic is the value type's.
    Arithmetic(u64, u64),
    /// A boolean.
    Bool(bool),
    /// A string.
    Text(String),
    /// A list.
    Items(Vec<ListItem<V>>),
    /// Equality of two compound values of the same type (or of lists whose
    /// items are compound values at the same positions), which the value
    /// type decides.
    ByValueType,
}

/// The name of an operand's type.
pub open spec fn kind_name<V>(x: Operand<V>) -> Seq<char> {
    match x {
        Operand::Number(_) => "number"@,
        Operand::Bool(_) => "boolean"@,
        Operand::Str(_) => "string"@,
        Operand::List(_) => "list"@,
        Operand::Other(_, t) => t@,
    }
}

/// The verb of an arithmetic operator's type error.
pub open spec fn verb(op: BinaryOp) -> Seq<char> {
    match op {
        BinaryOp::Add => "add"@,
        BinaryOp::Subtract => "subtract"@,
        BinaryOp::Multiply => "multiply"@,
        BinaryOp::Divide => "divide"@,
        BinaryOp::Modulo => "modulo"@,
        BinaryOp::Power => "exponentiate"@,
        _ => "compare"@,
    }
}

/// The operator compares by order.
pub open spec fn is_ordering(op: BinaryOp) -> bool {
    op == BinaryOp::Less || op == BinaryOp::LessEqual || op == BinaryOp::Greater || op == BinaryOp::GreaterEqual
}

/// The order operator `op` on two keys.
pub open spec fn ordered(op: BinaryOp, a: int, b: int) -> bool {
    match op {
        BinaryOp::Less => a < b,
        BinaryOp::LessEqual => a <= b,
        BinaryOp::Greater => a > b,
        _ => a >= b,
    }
}

/// The order operator `op` on two strings.
pub open spec fn str_ordered(op: BinaryOp, a: Seq<char>, b: Seq<char>) -> bool {
    match op {
        BinaryOp::Less => lex_lt(a, b),
        BinaryOp::LessEqual => lex_lt(a, b) || a == b,
        BinaryOp::Greater => lex_lt(b, a),
        _ => lex_lt(b, a) || a == b,
    }
}

/// The double with bits `b` is zero.
pub open spec fn is_zero(b: u64) -> bool {
    number_key(b) == 0 && !is_nan(b)
}

/// Whether two items are equal is known here: one of them is a string, a
/// boolean or a number.
pub open spec fn known_pair<V>(x: ListItem<V>, y: ListItem<V>) -> bool {
    !(x is Other && y is Other)
}

/// Two lists are equal when they have the same length and their items are
/// equal pair by pair; `None` when that rests on a pair of compound items.
pub open spec fn lists_equal<V>(a: Seq<ListItem<V>>, b: Seq<ListItem<V>>) -> Option<bool> {
    if a.len() != b.len() {
        Some(false)
    } else if exists|i: int| 0 <= i < a.len() && known_pair(a[i], b[i]) && !same_item(#[trigger] a[i], b[i]) {
        Some(false)
    } else if forall|i: int| 0 <= i < a.len() ==> known_pair(#[trigger] a[i], b[i]) {
        Some(true)
    } else {
        None
    }
}

/// The two operands are equal, where that is known without comparing
/// compound values: numbers as doubles, strings and booleans by value, lists
/// item by item, and values of different types never.
pub open spec fn plain_equal<V>(l: Operand<V>, r: Operand<V>) -> Option<bool> {
    match (l, r) {
        (Operand::Number(a), Operand::Number(b)) => Some(!is_nan(a) && !is_nan(b) && number_key(a) == number_key(b)),
        (Operand::Bool(a), Operand::Bool(b)) => Some(a == b),
        (Operand::Str(a), Operand::Str(b)) => Some(a@ == b@),
        (Operand::List(a), Operand::List(b)) => lists_equal(a@, b@),
        _ => if kind_name(l) != kind_name(r) { Some(false) } else { None },
    }
}

/// `r` is a type error with the message `msg`.
pub open spec fn op_type_error<V>(r: Result<BinaryValue<V>, RuntimeError>, msg: Seq<char>) -> bool {
    r matches Err(RuntimeError::TypeError { message }) && message@ == msg
}

/// What the operator `op` gives on `l` and `r`.
pub open spec fn binary_gives<V>(res: Result<BinaryValue<V>, RuntimeError>, op: BinaryOp, l: Operand<V>, r: Operand<V>) -> bool {
    let mismatch = "Cannot "@ + verb(op) + " "@ + kind_name(l) + " and "@ + kind_name(r);
    if op == BinaryOp::Equal || op == BinaryOp::NotEqual {
        match plain_equal(l, r) {
            Some(e) => res matches Ok(BinaryValue::Bool(b)) && b == (if op == BinaryOp::Equal { e } else { !e }),
            None => res matches Ok(BinaryValue::ByValueType),
        }
    } else if is_ordering(op) {
        match (l, r) {
            (Operand::Number(a), Operand::Number(b)) => res matches Ok(BinaryValue::Bool(x))
                && x == (!is_nan(a) && !is_nan(b) && ordered(op, number_key(a), number_key(b))),
            (Operand::Str(a), Operand::Str(b)) => res matches Ok(BinaryValue::Bool(x)) && x == str_ordered(op, a@, b@),
            _ => op_type_error(res, mismatch),
        }
    } else {
        match (l, r) {
            (Operand::Number(a), Operand::Number(b)) => if op == BinaryOp::Divide && is_zero(b) {
                res matches Err(RuntimeError::InvalidOperation { message }) && message@ == "Division by zero"@
            } else if op == BinaryOp::Modulo && is_zero(b) {
                res matches Err(RuntimeError::InvalidOperation { message }) && message@ == "Modulo by zero"@
            } else {
                res matches Ok(BinaryValue::Arithmetic(x, y)) && x == a && y == b
            },
            (Operand::Str(a), Operand::Str(b)) => if op == BinaryOp::Add {
                res matches Ok(BinaryValue::Text(t)) && t@ == a@ + b@
            } else {
                op_type_error(res, mismatch)
            },
            (Operand::List(a), Operand::List(b)) => if op == BinaryOp::Add {
                res matches Ok(BinaryValue::Items(v)) && v@ == a@ + b@
            } else {
                op_type_error(res, mismatch)
            },
            _ => op_type_error(res, mismatch),
        }
    }
}

/// The items of `a` followed by those of `b`.
pub fn concat_lists<T>(a: Vec<T>, b: Vec<T>) -> (r: Vec<T>)
    ensures
        r@ == a@ + b@,
{
    let mut r = a;
    let mut b = b;
    r.append(&mut b);
    r
}

fn kind_name_of<V>(x: &Operand<V>) -> (t: String)
    ensures
        t@ == kind_name(*x),
{
    match x {
        Operand::Number(_) => "number".to_owned(),
        Operand::Bool(_) => "boolean".to_owned(),
        Operand::Str(_) => "string".to_owned(),
        Operand::List(_) => "list".to_owned(),
        Operand::Other(_, t) => t.clone(),
    }
}

fn verb_of(op: BinaryOp) -> (v: &'static str)
    ensures
        v@ == verb(op),
{
    match op {
        BinaryOp::Add => "add",
        BinaryOp::Subtract => "subtract",
        BinaryOp::Multiply => "multiply",
        BinaryOp::Divide => "divide",
        BinaryOp::Modulo => "modulo",
        BinaryOp::Power => "exponentiate",
        _ => "compare",
    }
}

fn mismatch_error<V>(op: BinaryOp, l: &Operand<V>, r: &Operand<V>) -> (e: RuntimeError)
    ensures
        e matches RuntimeError::TypeError { message }
            && message@ == "Cannot "@ + verb(op) + " "@ + kind_name(*l) + " and "@ + kind_name(*r),
{
    let mut m = "Cannot ".to_owned();
    m.append(verb_of(op));
    m.append(" ");
    m.append(kind_name_of(l).as_str());
    m.append(" and ");
    m.append(kind_name_of(r).as_str());
    RuntimeError::TypeError { message: m }
}

/// Whether two lists are equal, where that is known.
fn list_eq<V>(a: &Vec<ListItem<V>>, b: &Vec<ListItem<V>>) -> (r: Option<bool>)
    ensures
        r == lists_equal(a@, b@),
{
    if a.len() != b.len() {
        return Some(false);
    }
    let mut unknown = false;
    let mut i: usize = 0;
    while i < a.len()
        invariant
            a@.len() == b@.len(),
            i <= a@.len(),
            forall|j: int| 0 <= j < i ==> known_pair(#[trigger] a@[j], b@[j]) ==> same_item(a@[j], b@[j]),
            unknown == exists|j: int| 0 <= j < i && !known_pair(#[trigger] a@[j], b@[j]),
        decreases a@.len() - i,
    {
        let x = &a[i];
        let y = &b[i];
        let known = match (x, y) {
            (ListItem::Other(_, _), ListItem::Other(_, _)) => false,
            _ => true,
        };
        if known {
            if !same(x, y) {
                assert(known_pair(a@[i as int], b@[i as int]) && !same_item(a@[i as int], b@[i as int]));
                return Some(false);
            }
        } else {
            unknown = true;
        }
        i = i + 1;
    }
    if unknown {
        None
    } else {
        Some(true)
    }
}

fn zero(b: u64) -> (z: bool)
    ensures
        z == is_zero(b),
{
    (b & 0x7fff_ffff_ffff_ffffu64) == 0
}

/// Apply the operator `op` to `l` and `r`.
pub fn eval_binary_op<V>(op: BinaryOp, l: Operand<V>, r: Operand<V>) -> (res: Result<BinaryValue<V>, RuntimeError>)
    ensures
        binary_gives(res, op, l, r),
{
    match op {
        BinaryOp::Equal | BinaryOp::NotEqual => {
            let e: Option<bool> = match (&l, &r) {
                (Operand::Number(a), Operand::Number(b)) => Some(number_less(*a, *b) == false && number_less(*b, *a) == false
                    && (*a & 0x7fff_ffff_ffff_ffffu64) <= 0x7ff0_0000_0000_0000u64
                    && (*b & 0x7fff_ffff_ffff_ffffu64) <= 0x7ff0_0000_0000_0000u64),
                (Operand::Bool(a), Operand::Bool(b)) => Some(*a == *b),
                (Operand::Str(a), Operand::Str(b)) => Some(str_eq(a.as_str(), b.as_str())),
                (Operand::List(a), Operand::List(b)) => list_eq(a, b),
                _ => {
                    let tl = kind_name_of(&l);
                    let tr = kind_name_of(&r);
                    if str_eq(tl.as_str(), tr.as_str()) { None } else { Some(false) }
                },
            };
            match e {
                Some(e) => Ok(BinaryValue::Bool(if op == BinaryOp::Equal { e } else { !e })),
                None => Ok(BinaryValue::ByValueType),
            }
        },
        BinaryOp::Less | BinaryOp::LessEqual | BinaryOp::Greater | BinaryOp::GreaterEqual => {
            match (&l, &r) {
                (Operand::Number(a), Operand::Number(b)) => {
                    let lt = number_less(*a, *b);
                    let gt = number_less(*b, *a);
                    let nan = (*a & 0x7fff_ffff_ffff_ffffu64) > 0x7ff0_0000_0000_0000u64
                        || (*b & 0x7fff_ffff_ffff_ffffu64) > 0x7ff0_0000_0000_0000u64;
                    let x = match op {
                        BinaryOp::Less => lt,
                        BinaryOp::LessEqual => !nan && !gt,
                        BinaryOp::Greater => gt,
                        _ => !nan && !lt,
                    };
                    Ok(BinaryValue::Bool(x))
                },
                (Operand::Str(a), Operand::Str(b)) => {
                    let x = match op {
                        BinaryOp::Less => str_lt(a.as_str(), b.as_str()),
                        BinaryOp::LessEqual => str_lt(a.as_str(), b.as_str()) || str_eq(a.as_str(), b.as_str()),
                        BinaryOp::Greater => str_lt(b.as_str(), a.as_str()),
                        _ => str_lt(b.as_str(), a.as_str()) || str_eq(a.as_str(), b.as_str()),
                    };
                    Ok(BinaryValue::Bool(x))
                },
                _ => Err(mismatch_error(op, &l, &r)),
            }
        },
        _ => {
            match (l, r) {
                (Operand::Number(a), Operand::Number(b)) => {
                    if op == BinaryOp::Divide && zero(b) {
                        Err(RuntimeError::InvalidOperation { message: "Division by zero".to_owned() })
                    } else if op == BinaryOp::Modulo && zero(b) {
                        Err(RuntimeError::InvalidOperation { message: "Modulo by zero".to_owned() })
                    } else {
                        Ok(BinaryValue::Arithmetic(a, b))
                    }
                },
                (Operand::Str(a), Operand::Str(b)) => {
                    if op == BinaryOp::Add {
                        let mut t = a;
                        t.append(b.as_str());
                        Ok(BinaryValue::Text(t))
                    } else {
                        let l = Operand::<V>::Str(a);
                        let r = Operand::<V>::Str(b);
                        Err(mismatch_error(op, &l, &r))
                    }
                },
                (Operand::List(a), Operand::List(b)) => {
                    if op == BinaryOp::Add {
                        Ok(BinaryValue::Items(concat_lists(a, b)))
                    } else {
                        let l = Operand::<V>::List(a);
                        let r = Operand::<V>::List(b);
                        Err(mismatch_error(op, &l, &r))
                    }
                },
                (l, r) => Err(mismatch_error(op, &l, &r)),
            }
        },
    }
}

/// A unary operator.
#[derive(Debug, Clone, Copy, PartialEq, Eq, Structural)]
pub enum UnaryOp {
    Negate,
    Not,
}

/// What a unary operator gives.
#[derive(Debug, Clone, Copy, PartialEq, Eq)]
pub enum UnaryValue {
    /// A number: the bits of its double.
    Number(u64),
    /// A boolean.
    Bool(bool),
}

/// What the operator `op` gives on `x`: negation flips the sign of a double.
pub open spec fn unary_gives<V>(res: Result<UnaryValue, RuntimeError>, op: UnaryOp, x: Operand<V>) -> bool {
    match (op, x) {
        (UnaryOp::Negate, Operand::Number(b)) => res matches Ok(UnaryValue::Number(n)) && n == b ^ 0x8000_0000_0000_0000u64,
        (UnaryOp::Negate, _) => res matches Err(RuntimeError::TypeError { message }) && message@ == "Cannot negate "@ + kind_name(x),
        (UnaryOp::Not, Operand::Bool(b)) => res matches Ok(UnaryValue::Bool(n)) && n == !b,
        (UnaryOp::Not, _) => res matches Err(RuntimeError::TypeError { message })
            && message@ == "Cannot apply logical NOT to "@ + kind_name(x),
    }
}

/// The bits of a zero double: `0.0` or `-0.0`.
proof fn lemma_zero_bits(b: u64)
    ensures
        is_zero(b) <==> (b == 0u64 || b == 0x8000_0000_0000_0000u64),
{
    assert((b & 0x7fff_ffff_ffff_ffffu64) == 0u64 <==> (b == 0u64 || b == 0x8000_0000_0000_0000u64)) by (bit_vector);
}

/// Division and modulo of two numbers fail exactly when the divisor is zero
/// (`0.0` or `-0.0`), with "Division by zero" or "Modulo by zero"; for every
/// other divisor, negative ones included, the operands go on to the
/// arithmetic unchanged.
pub proof fn lemma_division_fails_only_on_zero<V>(op: BinaryOp, a: u64, b: u64, res: Result<BinaryValue<V>, RuntimeError>)
    requires
        op == BinaryOp::Divide || op == BinaryOp::Modulo,
        binary_gives(res, op, Operand::<V>::Number(a), Operand::<V>::Number(b)),
    ensures
        (b == 0u64 || b == 0x8000_0000_0000_0000u64) ==> (res matches Err(RuntimeError::InvalidOperation { message })
            && message@ == (if op == BinaryOp::Divide { "Division by zero"@ } else { "Modulo by zero"@ })),
        !(b == 0u64 || b == 0x8000_0000_0000_0000u64) ==> res == Ok::<BinaryValue<V>, RuntimeError>(BinaryValue::Arithmetic(a, b)),
{
    lemma_zero_bits(b);
}

/// The other arithmetic operators never fail on two numbers: they hand the
/// operands on unchanged.
pub proof fn lemma_arithmetic_never_fails<V>(op: BinaryOp, a: u64, b: u64, res: Result<BinaryValue<V>, RuntimeError>)
    requires
        op == BinaryOp::Add || op == BinaryOp::Subtract || op == BinaryOp::Multiply || op == BinaryOp::Power,
        binary_gives(res, op, Operand::<V>::Number(a), Operand::<V>::Number(b)),
    ensures
        res == Ok::<BinaryValue<V>, RuntimeError>(BinaryValue::Arithmetic(a, b)),
{
}

/// Negating a number twice gives the number back, bit for bit.
pub proof fn lemma_negate_twice(b: u64)
    ensures
        (b ^ 0x8000_0000_0000_0000u64) ^ 0x8000_0000_0000_0000u64 == b,
{
    assert((b ^ 0x8000_0000_0000_0000u64) ^ 0x8000_0000_0000_0000u64 == b) by (bit_vector);
}

/// Each order operator on two numbers is its mirror with the operands
/// swapped, and `<=` is `<` or `==`, unless a NaN takes part.
pub proof fn lemma_order_mirrors<V>(a: u64, b: u64, lt: Result<BinaryValue<V>, RuntimeError>, gt: Result<BinaryValue<V>, RuntimeError>, le: Result<BinaryValue<V>, RuntimeError>, eq: Result<BinaryValue<V>, RuntimeError>)
    requires
        binary_gives(lt, BinaryOp::Less, Operand::<V>::Number(a), Operand::<V>::Number(b)),
        binary_gives(gt, BinaryOp::Greater, Operand::<V>::Number(b), Operand::<V>::Number(a)),
        binary_gives(le, BinaryOp::LessEqual, Operand::<V>::Number(a), Operand::<V>::Number(b)),
        binary_gives(eq, BinaryOp::Equal, Operand::<V>::Number(a), Operand::<V>::Number(b)),
    ensures
        lt == gt,
        le matches Ok(BinaryValue::Bool(x)) && x == ((lt matches Ok(BinaryValue::Bool(true))) || (eq matches Ok(BinaryValue::Bool(true)))),
{
}

/// Apply the operator `op` to `x`.
pub fn eval_unary_op<V>(op: UnaryOp, x: Operand<V>) -> (res: Result<UnaryValue, RuntimeError>)
    ensures
        unary_gives(res, op, x),
{
    match (op, &x) {
        (UnaryOp::Negate, Operand::Number(b)) => Ok(UnaryValue::Number(*b ^ 0x8000_0000_0000_0000u64)),
        (UnaryOp::Not, Operand::Bool(b)) => Ok(UnaryValue::Bool(!*b)),
        (UnaryOp::Negate, _) => {
            let mut m = "Cannot negate ".to_owned();
            m.append(kind_name_of(&x).as_str());
            Err(RuntimeError::TypeError { message: m })
        },
        (UnaryOp::Not, _) => {
            let mut m = "Cannot apply logical NOT to ".to_owned();
            m.append(kind_name_of(&x).as_str());
            Err(RuntimeError::TypeError { message: m })
        },
    }
}

} // verus!
