//! Expansion of integer ranges `start..end` into lists.

use vstd::prelude::*;
use crate::error::RuntimeError;
use crate::text::{nat_decimal, nat_to_decimal};

verus! {

/// The largest number of elements that a range may have.
pub const MAX_RANGE_SIZE: u64 = 1000000;

/// The integers from `start` up to, not including, `end`: empty when `start`
/// is not below `end`.
pub open spec fn range_values(start: int, end: int) -> Seq<int> {
    Seq::new(if start < end { (end - start) as nat } else { 0 }, |i: int| start + i)
}

/// The message for a range of `size` elements, over the limit.
pub open spec fn range_too_large(size: nat) -> Seq<char> {
    "Range too large: "@ + nat_decimal(size) + " elements"@
}

/// Expand the half-open range `start..end` into the list of its integers:
/// empty when `start >= end`, refused when it would have more than
/// `MAX_RANGE_SIZE` elements.
pub fn expand_range(start: i64, end: i64) -> (r: Result<Vec<i64>, RuntimeError>)
    ensures
        start < end && end - start > MAX_RANGE_SIZE ==> (r matches Err(RuntimeError::InvalidOperation { message })
            && message@ == range_too_large((end - start) as nat)),
        !(start < end && end - start > MAX_RANGE_SIZE) ==> (r matches Ok(v)
            && v@.map_values(|x: i64| x as int) == range_values(start as int, end as int)),
{
    let mut v: Vec<i64> = Vec::new();
    if start >= end {
        assert(v@.map_values(|x: i64| x as int) =~= range_values(start as int, end as int));
        return Ok(v);
    }
    let size: u64 = ((end as i128) - (start as i128)) as u64;
    if size > MAX_RANGE_SIZE {
        let mut m = "Range too large: ".to_owned();
        let digits = nat_to_decimal(size);
        m.append(digits.as_str());
        m.append(" elements");
        return Err(RuntimeError::InvalidOperation { message: m });
    }
    let mut x: i64 = start;
    while x < end
        invariant
            start <= x <= end,
            v@.map_values(|y: i64| y as int) =~= range_values(start as int, x as int),
        decreases end - x,
    {
        let ghost before = v@.map_values(|y: i64| y as int);
        v.push(x);
        assert(v@.map_values(|y: i64| y as int) =~= before.push(x as int));
        assert(range_values(start as int, x + 1) =~= range_values(start as int, x as int).push(x as int));
        x = x + 1;
    }
    Ok(v)
}

/// A bound of a range, as range expansion reads it.
#[derive(Debug)]
pub enum RangeBound {
    /// A number with no fractional part, as an integer.
    Whole(i64),
    /// A number with a fractional part.
    Fraction,
    /// A value of another kind, by its type name.
    Other(String),
}

/// What expanding the range between two values gives: the start and the end
/// must be numbers, then whole numbers, and then the range is expanded.
pub open spec fn range_values_gives(start: RangeBound, end: RangeBound, r: Result<Vec<i64>, RuntimeError>) -> bool {
    match (start, end) {
        (RangeBound::Other(t), _) => r matches Err(RuntimeError::TypeError { message })
            && message@ == "Range start must be a number, got "@ + t@,
        (_, RangeBound::Other(t)) => r matches Err(RuntimeError::TypeError { message })
            && message@ == "Range end must be a number, got "@ + t@,
        (RangeBound::Whole(a), RangeBound::Whole(b)) => if a < b && b - a > MAX_RANGE_SIZE {
            r matches Err(RuntimeError::InvalidOperation { message }) && message@ == range_too_large((b - a) as nat)
        } else {
            r matches Ok(v) && v@.map_values(|x: i64| x as int) == range_values(a as int, b as int)
        },
        _ => r matches Err(RuntimeError::TypeError { message }) && message@ == "Range bounds must be integers"@,
    }
}

/// Expand the range between two values.
pub fn expand_range_values(start: &RangeBound, end: &RangeBound) -> (r: Result<Vec<i64>, RuntimeError>)
    ensures
        range_values_gives(*start, *end, r),
{
    if let RangeBound::Other(t) = start {
        let mut m = "Range start must be a number, got ".to_owned();
        m.append(t.as_str());
        return Err(RuntimeError::TypeError { message: m });
    }
    if let RangeBound::Other(t) = end {
        let mut m = "Range end must be a number, got ".to_owned();
        m.append(t.as_str());
        return Err(RuntimeError::TypeError { message: m });
    }
    match (start, end) {
        (RangeBound::Whole(a), RangeBound::Whole(b)) => expand_range(*a, *b),
        _ => Err(RuntimeError::TypeError { message: "Range bounds must be integers".to_owned() }),
    }
}

} // verus!
