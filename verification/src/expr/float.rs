//! Floating-point values by their IEEE 754 binary64 bits. Order, equality and
//! absolute value are integer facts about the bits; arithmetic and conversions
//! are answered by a function that the caller hands in.

use vstd::prelude::*;

verus! {

/// A question about binary64 arithmetic.
#[derive(Debug)]
pub enum FloatOp {
    Add(u64, u64),
    Sub(u64, u64),
    Mul(u64, u64),
    Div(u64, u64),
    FromInt(i64),
    FromUInt(u64),
    /// Truncation to an `i64`, saturating at its ends.
    ToInt(u64),
    /// The number that a text denotes.
    Parse(String),
}

/// The answer to a [`FloatOp`].
#[derive(Clone, Copy, Debug, PartialEq, Eq, Structural)]
pub enum FloatReply {
    Bits(u64),
    Int(i64),
    Invalid,
}

/// What a [`FloatOp`] asks.
#[verifier::ext_equal]
pub ghost enum FloatAsk {
    Add(u64, u64),
    Sub(u64, u64),
    Mul(u64, u64),
    Div(u64, u64),
    FromInt(i64),
    FromUInt(u64),
    ToInt(u64),
    Parse(Seq<char>),
}

impl View for FloatOp {
    type V = FloatAsk;

    open spec fn view(&self) -> FloatAsk {
        match *self {
            FloatOp::Add(a, b) => FloatAsk::Add(a, b),
            FloatOp::Sub(a, b) => FloatAsk::Sub(a, b),
            FloatOp::Mul(a, b) => FloatAsk::Mul(a, b),
            FloatOp::Div(a, b) => FloatAsk::Div(a, b),
            FloatOp::FromInt(a) => FloatAsk::FromInt(a),
            FloatOp::FromUInt(a) => FloatAsk::FromUInt(a),
            FloatOp::ToInt(a) => FloatAsk::ToInt(a),
            FloatOp::Parse(s) => FloatAsk::Parse(s@),
        }
    }
}

/// Binary64 arithmetic as a mathematical function.
pub type Floats = spec_fn(FloatAsk) -> FloatReply;

/// `f` answers every question.
pub open spec fn answers<F: Fn(FloatOp) -> FloatReply>(f: F) -> bool {
    forall|op: FloatOp| #[trigger] call_requires(f, (op,))
}

/// Whatever `f` answers is what `g` says.
pub open spec fn agrees<F: Fn(FloatOp) -> FloatReply>(f: F, g: Floats) -> bool {
    forall|op: FloatOp, r: FloatReply| #[trigger] call_ensures(f, (op,), r) ==> r == g(op@)
}

/// The bits in an answer; zero where the answer holds none.
pub open spec fn bits(r: FloatReply) -> u64 {
    match r {
        FloatReply::Bits(b) => b,
        _ => 0,
    }
}

/// The integer in an answer; zero where the answer holds none.
pub open spec fn int_in(r: FloatReply) -> i64 {
    match r {
        FloatReply::Int(v) => v,
        _ => 0,
    }
}

/// Asks for bits.
pub fn ask_bits<F: Fn(FloatOp) -> FloatReply>(f: &F, op: FloatOp) -> (r: u64)
    requires
        answers(*f),
    ensures
        forall|g: Floats| #[trigger] agrees(*f, g) ==> r == bits(g(op@)),
{
    match f(op) {
        FloatReply::Bits(b) => b,
        _ => 0,
    }
}

/// Asks for an integer.
pub fn ask_int<F: Fn(FloatOp) -> FloatReply>(f: &F, op: FloatOp) -> (r: i64)
    requires
        answers(*f),
    ensures
        forall|g: Floats| #[trigger] agrees(*f, g) ==> r == int_in(g(op@)),
{
    match f(op) {
        FloatReply::Int(v) => v,
        _ => 0,
    }
}

/// The bit of the sign.
pub const SIGN: u64 = 0x8000_0000_0000_0000;

/// The bits of positive infinity.
pub const INFINITY: u64 = 0x7ff0_0000_0000_0000;

/// The bits without the sign.
pub open spec fn magnitude(b: u64) -> u64 {
    (b % SIGN) as u64
}

/// Whether the bits stand for no number.
pub open spec fn nan(b: u64) -> bool {
    magnitude(b) > INFINITY
}

/// An integer that orders the numbers as they are ordered; both zeros share it.
pub open spec fn rank_key(b: u64) -> int {
    if b < SIGN {
        b as int
    } else {
        -(magnitude(b) as int)
    }
}

/// Numeric equality: nothing equals a NaN, and the zeros are equal.
pub open spec fn float_eq(a: u64, b: u64) -> bool {
    !nan(a) && !nan(b) && rank_key(a) == rank_key(b)
}

/// Numeric `a < b`: false where either is a NaN.
pub open spec fn float_lt(a: u64, b: u64) -> bool {
    !nan(a) && !nan(b) && rank_key(a) < rank_key(b)
}

/// Whether the bits are a zero.
pub open spec fn float_zero(b: u64) -> bool {
    magnitude(b) == 0
}

/// Integers convert to numbers, and no integer but zero to zero.
pub open spec fn converts(g: Floats) -> bool {
    &&& forall|i: i64|
        !nan(bits(#[trigger] g(FloatAsk::FromInt(i)))) && (float_zero(
            bits(g(FloatAsk::FromInt(i))),
        ) ==> i == 0)
    &&& forall|u: u64|
        !nan(bits(#[trigger] g(FloatAsk::FromUInt(u)))) && (float_zero(
            bits(g(FloatAsk::FromUInt(u))),
        ) ==> u == 0)
}

/// Removes the sign.
pub fn float_abs(b: u64) -> (r: u64)
    ensures
        r == magnitude(b),
{
    b % SIGN
}

/// Whether the bits stand for no number.
pub fn is_nan(b: u64) -> (r: bool)
    ensures
        r == nan(b),
{
    float_abs(b) > INFINITY
}

/// Numeric equality.
pub fn is_float_eq(a: u64, b: u64) -> (r: bool)
    ensures
        r == float_eq(a, b),
{
    if is_nan(a) || is_nan(b) {
        return false;
    }
    a == b || (float_abs(a) == 0 && float_abs(b) == 0)
}

/// Numeric `a < b`.
pub fn is_float_lt(a: u64, b: u64) -> (r: bool)
    ensures
        r == float_lt(a, b),
{
    if is_nan(a) || is_nan(b) {
        return false;
    }
    if a < SIGN {
        if b < SIGN {
            a < b
        } else {
            false
        }
    } else if b < SIGN {
        float_abs(a) != 0 || b != 0
    } else {
        float_abs(a) > float_abs(b)
    }
}

/// The numeric order is a strict order, and equality is what it leaves open.
pub proof fn law_float_order(a: u64, b: u64, c: u64)
    ensures
        !float_lt(a, a),
        float_lt(a, b) && float_lt(b, c) ==> float_lt(a, c),
        !nan(a) && !nan(b) ==> (float_lt(a, b) || float_lt(b, a) || float_eq(a, b)),
        float_eq(a, b) ==> float_eq(b, a),
        float_eq(a, b) ==> !float_lt(a, b),
{
}

} // verus!
