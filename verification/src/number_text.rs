//! Which strings read as a number: the grammar of `f64`'s `FromStr`, with
//! the letters in any case.
//!
//! ```text
//! Float  ::= Sign? ( 'inf' | 'infinity' | 'nan' | Number )
//! Number ::= ( Digit+ | Digit+ '.' Digit* | Digit* '.' Digit+ ) Exp?
//! Exp    ::= 'e' Sign? Digit+
//! Sign   ::= [+-]
//! Digit  ::= [0-9]
//! ```

use vstd::prelude::*;
use crate::str_ops::chars_of;

verus! {

/// A decimal digit.
pub open spec fn is_digit(c: char) -> bool {
    '0' <= c && c <= '9'
}

/// A sign.
pub open spec fn is_sign(c: char) -> bool {
    c == '+' || c == '-'
}

/// The letter `e` in either case.
pub open spec fn is_exp_mark(c: char) -> bool {
    c == 'e' || c == 'E'
}

/// Digits with at most one point among them, and at least one digit: the
/// three forms of the part before the exponent.
pub open spec fn is_mantissa(m: Seq<char>) -> bool {
    &&& forall|i: int| 0 <= i < m.len() ==> is_digit(#[trigger] m[i]) || m[i] == '.'
    &&& forall|i: int, j: int| 0 <= i < j < m.len() ==> !(#[trigger] m[i] == '.' && #[trigger] m[j] == '.')
    &&& exists|i: int| 0 <= i < m.len() && is_digit(#[trigger] m[i])
}

/// Every character is a digit.
pub open spec fn all_digits(d: Seq<char>) -> bool {
    forall|i: int| 0 <= i < d.len() ==> is_digit(#[trigger] d[i])
}

/// What follows the sign of an exponent, if it has one.
pub open spec fn unsigned_part(x: Seq<char>) -> Seq<char> {
    if x.len() > 0 && is_sign(x[0]) { x.skip(1) } else { x }
}

/// An optional sign and at least one digit.
pub open spec fn is_exponent(x: Seq<char>) -> bool {
    unsigned_part(x).len() > 0 && all_digits(unsigned_part(x))
}

/// A number without a sign: a mantissa, and an exponent after an `e`.
pub open spec fn is_unsigned_number(b: Seq<char>) -> bool {
    ||| is_mantissa(b)
    ||| exists|k: int| 0 <= k < b.len() && is_exp_mark(#[trigger] b[k]) && is_mantissa(b.take(k)) && is_exponent(b.skip(k + 1))
}

/// `c` is the lower-case ASCII letter `l`, in either case.
pub open spec fn same_letter(c: char, l: char) -> bool {
    c == l || (c as u32) + 32 == (l as u32)
}

/// `b` is the lower-case word `w`, its letters in any case.
pub open spec fn is_word(b: Seq<char>, w: Seq<char>) -> bool {
    b.len() == w.len() && forall|i: int| 0 <= i < b.len() ==> same_letter(#[trigger] b[i], w[i])
}

/// `s` reads as a number.
pub open spec fn is_number_text(s: Seq<char>) -> bool {
    let b = if s.len() > 0 && is_sign(s[0]) { s.skip(1) } else { s };
    ||| is_word(b, "inf"@)
    ||| is_word(b, "infinity"@)
    ||| is_word(b, "nan"@)
    ||| is_unsigned_number(b)
}

fn digit(c: char) -> (r: bool)
    ensures
        r == is_digit(c),
{
    '0' <= c && c <= '9'
}

/// The characters of `v` from `a` to `b` are a mantissa.
fn mantissa_at(v: &Vec<char>, a: usize, b: usize) -> (r: bool)
    requires
        a <= b <= v@.len(),
    ensures
        r == is_mantissa(v@.subrange(a as int, b as int)),
{
    let ghost m = v@.subrange(a as int, b as int);
    let mut seen_point = false;
    let mut seen_digit = false;
    let mut i: usize = a;
    while i < b
        invariant
            a <= i <= b <= v@.len(),
            m == v@.subrange(a as int, b as int),
            forall|j: int| 0 <= j < i - a ==> is_digit(#[trigger] m[j]) || m[j] == '.',
            forall|j: int, k: int| 0 <= j < k < i - a ==> !(#[trigger] m[j] == '.' && #[trigger] m[k] == '.'),
            seen_point == exists|j: int| 0 <= j < i - a && #[trigger] m[j] == '.',
            seen_digit == exists|j: int| 0 <= j < i - a && is_digit(#[trigger] m[j]),
        decreases b - i,
    {
        let c = v[i];
        assert(m[i - a] == c);
        if c == '.' {
            if seen_point {
                let ghost p = choose|j: int| 0 <= j < i - a && #[trigger] m[j] == '.';
                assert(m[p] == '.' && m[i - a] == '.');
                return false;
            }
            seen_point = true;
        } else if digit(c) {
            seen_digit = true;
        } else {
            return false;
        }
        i = i + 1;
    }
    seen_digit
}

/// The characters of `v` from `a` on are an exponent.
fn exponent_at(v: &Vec<char>, a: usize) -> (r: bool)
    requires
        a <= v@.len(),
    ensures
        r == is_exponent(v@.skip(a as int)),
{
    let ghost x = v@.skip(a as int);
    let mut i: usize = a;
    if i < v.len() && (v[i] == '+' || v[i] == '-') {
        i = i + 1;
    }
    let ghost d = v@.skip(i as int);
    assert(d =~= unsigned_part(x));
    if i == v.len() {
        assert(d.len() == 0);
        return false;
    }
    let start = i;
    while i < v.len()
        invariant
            start <= i <= v@.len(),
            d == v@.skip(start as int),
            x == v@.skip(a as int),
            d == unsigned_part(x),
            forall|j: int| 0 <= j < i - start ==> is_digit(#[trigger] d[j]),
        decreases v@.len() - i,
    {
        assert(d[i - start] == v@[i as int]);
        if !digit(v[i]) {
            assert(!is_digit(d[i - start]));
            return false;
        }
        i = i + 1;
    }
    true
}

/// The characters of `v` from `a` on are the word `w`, in any case.
fn word_at(v: &Vec<char>, a: usize, w: &str) -> (r: bool)
    requires
        a <= v@.len(),
    ensures
        r == is_word(v@.skip(a as int), w@),
{
    let wv = chars_of(w);
    if v.len() - a != wv.len() {
        return false;
    }
    let vlen = v.len();
    let mut i: usize = 0;
    while i < wv.len()
        invariant
            vlen == v@.len(),
            a + wv@.len() == v@.len(),
            i <= wv@.len(),
            wv@ == w@,
            forall|j: int| 0 <= j < i ==> same_letter(#[trigger] v@.skip(a as int)[j], w@[j]),
        decreases wv@.len() - i,
    {
        assert(a + i < vlen);
        let c = v[a + i];
        let l = wv[i];
        assert(v@.skip(a as int)[i as int] == c);
        let lu = l as u32;
        let same = c == l || (lu >= 32 && (c as u32) == lu - 32);
        if !same {
            return false;
        }
        i = i + 1;
    }
    true
}

/// Whether `s` reads as a number.
pub fn reads_as_number(s: &str) -> (r: bool)
    ensures
        r == is_number_text(s@),
{
    let v = chars_of(s);
    let a: usize = if v.len() > 0 && (v[0] == '+' || v[0] == '-') { 1 } else { 0 };
    let ghost b = v@.skip(a as int);
    assert(b =~= (if s@.len() > 0 && is_sign(s@[0]) { s@.skip(1) } else { s@ }));
    if word_at(&v, a, "inf") || word_at(&v, a, "infinity") || word_at(&v, a, "nan") {
        return true;
    }
    // the first `e`, if any
    let mut k: usize = a;
    while k < v.len() && !(v[k] == 'e' || v[k] == 'E')
        invariant
            a <= k <= v@.len(),
            forall|j: int| a <= j < k ==> !is_exp_mark(#[trigger] v@[j]),
        decreases v@.len() - k,
    {
        k = k + 1;
    }
    assert(v@.subrange(a as int, v@.len() as int) =~= b);
    assert(v@.subrange(a as int, k as int) =~= b.take(k - a));
    if k == v.len() {
        let r = mantissa_at(&v, a, k);
        proof {
            assert forall|q: int| 0 <= q < b.len() implies !is_exp_mark(#[trigger] b[q]) by {
                assert(b[q] == v@[a + q]);
            }
        }
        r
    } else {
        assert(v@.skip(k + 1) =~= b.skip(k - a + 1));
        let r = mantissa_at(&v, a, k) && exponent_at(&v, k + 1);
        proof {
            let kb = k - a;
            assert(b[kb] == v@[k as int]);
            if r {
                assert(is_exp_mark(b[kb]));
            } else {
                // `b` has a mark, so it is no mantissa; and no other mark splits it
                assert(!is_digit(b[kb]) && b[kb] != '.');
                assert forall|q: int| 0 <= q < b.len() && is_exp_mark(#[trigger] b[q]) && is_mantissa(b.take(q)) implies !is_exponent(b.skip(q + 1)) by {
                    if q < kb {
                        assert(b[q] == v@[a + q]);
                    } else if q > kb {
                        assert(b.take(q)[kb] == b[kb]);
                    }
                }
            }
        }
        r
    }
}

} // verus!
