//! Numbers of the language: IEEE 754 double-precision values, held by their
//! bit patterns.
//!
//! What decides the course of a program is computed here on the bits: the
//! sign change, equality, order and the whole count of a number. Rounding
//! arithmetic and the reading of decimal text are asked of a numeric kernel
//! that the caller supplies.
use vstd::prelude::*;

verus! {

pub const SIGN_BIT: u64 = 0x8000_0000_0000_0000;

pub const MAGNITUDE_MASK: u64 = 0x7fff_ffff_ffff_ffff;

pub const FRACTION_MASK: u64 = 0x000f_ffff_ffff_ffff;

pub const INFINITY_BITS: u64 = 0x7ff0_0000_0000_0000;

pub const IMPLICIT_BIT: u64 = 0x0010_0000_0000_0000;

/// The one bit pattern in which the interpreter keeps a NaN that
/// arithmetic gave.
pub const CANONICAL_NAN: u64 = 0x7ff8_0000_0000_0000;

/// Whether the bits hold no number (NaN): all exponent bits set and a
/// fraction other than zero.
pub open spec fn is_nan(bits: u64) -> bool {
    bits & MAGNITUDE_MASK > INFINITY_BITS
}

/// The bits with every NaN as the canonical one.
pub open spec fn canonical(bits: u64) -> u64 {
    if is_nan(bits) {
        CANONICAL_NAN
    } else {
        bits
    }
}

/// An answer of the kernel with every NaN as the canonical one.
pub open spec fn normal(answer: Option<u64>) -> Option<u64> {
    match answer {
        Some(bits) => Some(canonical(bits)),
        None => None,
    }
}

/// Whether the bits hold zero, of either sign.
pub open spec fn is_zero(bits: u64) -> bool {
    bits & MAGNITUDE_MASK == 0
}

/// Whether the sign bit is set.
pub open spec fn is_negative(bits: u64) -> bool {
    bits & SIGN_BIT != 0
}

/// The number with its sign changed.
pub open spec fn negated(bits: u64) -> u64 {
    bits ^ SIGN_BIT
}

/// Equality of numbers: NaN equals nothing, the two zeros are equal, and
/// every other number equals only itself.
pub open spec fn number_eq(a: u64, b: u64) -> bool {
    !is_nan(a) && !is_nan(b) && (a == b || (is_zero(a) && is_zero(b)))
}

/// Order of numbers: NaN is in no order to anything, the two zeros are
/// equal, a negative number is below a positive one, and numbers of one
/// sign go by their magnitude.
pub open spec fn number_lt(a: u64, b: u64) -> bool {
    !is_nan(a) && !is_nan(b) && !(is_zero(a) && is_zero(b)) && if is_negative(a) {
        !is_negative(b) || (a & MAGNITUDE_MASK) > (b & MAGNITUDE_MASK)
    } else {
        !is_negative(b) && (a & MAGNITUDE_MASK) < (b & MAGNITUDE_MASK)
    }
}

pub open spec fn number_le(a: u64, b: u64) -> bool {
    number_lt(a, b) || number_eq(a, b)
}

/// The whole count that a number stands for: its value with the
/// fraction cut off, 0 for a negative number or NaN, and the largest
/// 64-bit count for a number that exceeds it.
pub open spec fn count_of(bits: u64) -> u64 {
    let exponent = (bits & MAGNITUDE_MASK) >> 52;
    let significand = (bits & FRACTION_MASK) | IMPLICIT_BIT;
    if is_negative(bits) || is_nan(bits) || exponent < 1023 {
        0
    } else if exponent >= 1087 {
        u64::MAX
    } else if exponent >= 1075 {
        significand << ((exponent - 1075) as u64)
    } else {
        significand >> ((1075 - exponent) as u64)
    }
}

/// The count as a length: the largest length where the count exceeds it.
pub open spec fn length_of(bits: u64) -> usize {
    if count_of(bits) > usize::MAX {
        usize::MAX
    } else {
        count_of(bits) as usize
    }
}

pub fn nan(bits: u64) -> (b: bool)
    ensures
        b == is_nan(bits),
{
    bits & MAGNITUDE_MASK > INFINITY_BITS
}

/// The bits with every NaN as the canonical one.
pub fn canonical_bits(bits: u64) -> (r: u64)
    ensures
        r == canonical(bits),
{
    if nan(bits) {
        CANONICAL_NAN
    } else {
        bits
    }
}

pub fn zero(bits: u64) -> (b: bool)
    ensures
        b == is_zero(bits),
{
    bits & MAGNITUDE_MASK == 0
}

pub fn negative(bits: u64) -> (b: bool)
    ensures
        b == is_negative(bits),
{
    bits & SIGN_BIT != 0
}

/// Changes the sign of a number.
pub fn negate(bits: u64) -> (r: u64)
    ensures
        r == negated(bits),
{
    bits ^ SIGN_BIT
}

pub fn equal(a: u64, b: u64) -> (r: bool)
    ensures
        r == number_eq(a, b),
{
    !nan(a) && !nan(b) && (a == b || (zero(a) && zero(b)))
}

pub fn less(a: u64, b: u64) -> (r: bool)
    ensures
        r == number_lt(a, b),
{
    if nan(a) || nan(b) || (zero(a) && zero(b)) {
        false
    } else if negative(a) {
        !negative(b) || (a & MAGNITUDE_MASK) > (b & MAGNITUDE_MASK)
    } else {
        !negative(b) && (a & MAGNITUDE_MASK) < (b & MAGNITUDE_MASK)
    }
}

pub fn less_or_equal(a: u64, b: u64) -> (r: bool)
    ensures
        r == number_le(a, b),
{
    less(a, b) || equal(a, b)
}

/// The whole count that a number stands for.
pub fn count(bits: u64) -> (r: u64)
    ensures
        r == count_of(bits),
{
    let exponent = (bits & MAGNITUDE_MASK) >> 52;
    let significand = (bits & FRACTION_MASK) | IMPLICIT_BIT;
    if negative(bits) || nan(bits) || exponent < 1023 {
        0
    } else if exponent >= 1087 {
        u64::MAX
    } else if exponent >= 1075 {
        significand << (exponent - 1075)
    } else {
        significand >> (1075 - exponent)
    }
}

/// The count as a length.
pub fn length(bits: u64) -> (r: usize)
    ensures
        r == length_of(bits),
{
    let c = count(bits);
    if c > usize::MAX as u64 {
        usize::MAX
    } else {
        c as usize
    }
}

/// What the interpreter asks of the numeric kernel.
#[derive(Debug, PartialEq)]
pub enum NumberQuery {
    /// The number that a decimal text denotes.
    Parse(String),
    Add(u64, u64),
    Subtract(u64, u64),
    Multiply(u64, u64),
    Divide(u64, u64),
}

/// A question to the kernel, with text as a sequence of characters.
pub enum QueryView {
    Parse(Seq<char>),
    Add(u64, u64),
    Subtract(u64, u64),
    Multiply(u64, u64),
    Divide(u64, u64),
}

impl View for NumberQuery {
    type V = QueryView;

    open spec fn view(&self) -> QueryView {
        match self {
            NumberQuery::Parse(s) => QueryView::Parse(s@),
            NumberQuery::Add(a, b) => QueryView::Add(*a, *b),
            NumberQuery::Subtract(a, b) => QueryView::Subtract(*a, *b),
            NumberQuery::Multiply(a, b) => QueryView::Multiply(*a, *b),
            NumberQuery::Divide(a, b) => QueryView::Divide(*a, *b),
        }
    }
}

/// A mathematical kernel: the answer to every question, or none.
pub type Arithmetic = spec_fn(QueryView) -> Option<u64>;

/// The kernel may give this answer to this question.
pub open spec fn answers<K: Fn(NumberQuery) -> Option<u64>>(
    kernel: &K,
    query: NumberQuery,
    answer: Option<u64>,
) -> bool {
    call_ensures(kernel, (query,), answer)
}

/// The kernel takes every question, and its answer depends on nothing but
/// the question. Which of the NaN bit patterns it gives is left open: two
/// answers to one question may differ in that.
pub open spec fn kernel_ok<K: Fn(NumberQuery) -> Option<u64>>(kernel: &K) -> bool {
    &&& forall|q: NumberQuery| call_requires(kernel, (q,))
    &&& forall|q1: NumberQuery, q2: NumberQuery, r1: Option<u64>, r2: Option<u64>|
        q1@ == q2@ && #[trigger] answers(kernel, q1, r1) && #[trigger] answers(kernel, q2, r2)
            ==> normal(r1) == normal(r2)
}

/// The mathematical kernel that an executable kernel computes, with every
/// NaN as the canonical one.
pub open spec fn kernel_model<K: Fn(NumberQuery) -> Option<u64>>(kernel: &K) -> Arithmetic {
    |q: QueryView|
        normal(
            (choose|p: (NumberQuery, Option<u64>)|
                p.0@ == q && #[trigger] answers(kernel, p.0, p.1)).1,
        )
}

/// Asks the kernel. Up to the bit pattern of a NaN, the answer is that of
/// the kernel's model.
pub fn ask<K: Fn(NumberQuery) -> Option<u64>>(kernel: &K, query: NumberQuery) -> (r: Option<u64>)
    requires
        kernel_ok(kernel),
    ensures
        normal(r) == kernel_model(kernel)(query@),
{
    let ghost q = query@;
    let r = kernel(query);
    proof {
        assert(query@ == q && answers(kernel, query, r));
        let p = choose|p: (NumberQuery, Option<u64>)|
            p.0@ == q && #[trigger] answers(kernel, p.0, p.1);
        assert(p.0@ == q && answers(kernel, p.0, p.1)) by {
            let witness = (query, r);
            assert(witness.0@ == q && answers(kernel, witness.0, witness.1));
        }
    }
    r
}

} // verus!
