//! Evaluation of expressions: three-valued logic, checked integer arithmetic,
//! integer comparison that never goes through floating point.

use super::float::{
    agrees, answers, ask_bits, ask_int, bits, float_abs, float_eq, float_lt, float_zero, int_in,
    is_float_eq, is_float_lt, is_nan, magnitude, nan, FloatAsk, FloatOp, FloatReply, Floats,
};
use super::{BinaryOp, Expr};
use crate::model::{
    column, dyn_of, dyns_of, err, fault, lemma_dyns, lemma_members, member, members_of, type_of,
    vals, DataType, Dyn, DynamicValue, ErrorCode, Fault, Scalar, Schema, SparrowError, Val,
};
use crate::text::{
    cat2, cat3, cat4, chars, dec, decimal, digits_value, lowered, read_digits, same, sub_chars,
    to_lower, to_upper, uppered,
};
use vstd::prelude::*;

verus! {

/// A result with the value and the error taken by what they hold.
pub open spec fn seen(r: Result<Scalar, SparrowError>) -> Result<Val, Fault> {
    match r {
        Ok(v) => Ok(v@),
        Err(e) => Err(e@),
    }
}

/// How one value stands to another.
#[derive(Clone, Copy, Debug, PartialEq, Eq, Structural)]
pub enum Rank {
    Less,
    Equal,
    Greater,
}

/// How one integer stands to another.
pub open spec fn rank_int(a: int, b: int) -> Rank {
    if a < b {
        Rank::Less
    } else if a == b {
        Rank::Equal
    } else {
        Rank::Greater
    }
}

fn rank_i64(a: i64, b: i64) -> (r: Rank)
    ensures
        r == rank_int(a as int, b as int),
{
    if a < b {
        Rank::Less
    } else if a == b {
        Rank::Equal
    } else {
        Rank::Greater
    }
}

fn rank_u64(a: u64, b: u64) -> (r: Rank)
    ensures
        r == rank_int(a as int, b as int),
{
    if a < b {
        Rank::Less
    } else if a == b {
        Rank::Equal
    } else {
        Rank::Greater
    }
}

/// The order of texts by code points, the first difference deciding.
pub open spec fn rank_text(a: Seq<char>, b: Seq<char>) -> Rank
    decreases a.len(),
{
    if a.len() == 0 || b.len() == 0 {
        rank_int(a.len() as int, b.len() as int)
    } else if a[0] != b[0] {
        rank_int(a[0] as int, b[0] as int)
    } else {
        rank_text(a.skip(1), b.skip(1))
    }
}

/// Compares two texts.
pub fn rank_str(a: &str, b: &str) -> (r: Rank)
    ensures
        r == rank_text(a@, b@),
{
    let x: Vec<char> = chars(a);
    let y: Vec<char> = chars(b);
    let mut i: usize = 0;
    assert(x@.skip(0) == x@);
    assert(y@.skip(0) == y@);
    while i < x.len() && i < y.len()
        invariant
            i <= x.len(),
            i <= y.len(),
            x@ == a@,
            y@ == b@,
            rank_text(x@, y@) == rank_text(x@.skip(i as int), y@.skip(i as int)),
        decreases x.len() - i,
    {
        if x[i] != y[i] {
            return if x[i] < y[i] {
                Rank::Less
            } else {
                Rank::Greater
            };
        }
        assert(x@.skip(i as int).skip(1) == x@.skip(i + 1));
        assert(y@.skip(i as int).skip(1) == y@.skip(i + 1));
        i = i + 1;
    }
    if x.len() < y.len() {
        Rank::Less
    } else if x.len() == y.len() {
        Rank::Equal
    } else {
        Rank::Greater
    }
}

/// A numeric value as binary64.
pub open spec fn as_float(v: Val, g: Floats) -> Option<u64> {
    match v {
        Val::Int64(i) => Some(bits(g(FloatAsk::FromInt(i)))),
        Val::UInt64(u) => Some(bits(g(FloatAsk::FromUInt(u)))),
        Val::Float64(b) => Some(b),
        Val::TimestampMicrosUTC(t) => Some(bits(g(FloatAsk::FromInt(t)))),
        _ => None,
    }
}

/// A numeric value as binary64.
pub fn scalar_as_float<F: Fn(FloatOp) -> FloatReply>(v: &Scalar, f: &F) -> (r: Option<u64>)
    requires
        answers(*f),
    ensures
        forall|g: Floats| #[trigger] agrees(*f, g) ==> r == as_float(v@, g),
{
    match v {
        Scalar::Int64(i) => Some(ask_bits(f, FloatOp::FromInt(*i))),
        Scalar::UInt64(u) => Some(ask_bits(f, FloatOp::FromUInt(*u))),
        Scalar::Float64(b) => Some(*b),
        Scalar::TimestampMicrosUTC(t) => Some(ask_bits(f, FloatOp::FromInt(*t))),
        _ => None,
    }
}

/// A numeric dynamic value as binary64.
pub open spec fn dyn_as_float(d: Dyn, g: Floats) -> Option<u64> {
    match d {
        Dyn::Int64(i) => Some(bits(g(FloatAsk::FromInt(i)))),
        Dyn::UInt64(u) => Some(bits(g(FloatAsk::FromUInt(u)))),
        Dyn::Float64(b) => Some(b),
        _ => None,
    }
}

fn dynamic_as_float<F: Fn(FloatOp) -> FloatReply>(d: &DynamicValue, f: &F) -> (r: Option<u64>)
    requires
        answers(*f),
    ensures
        forall|g: Floats| #[trigger] agrees(*f, g) ==> r == dyn_as_float(dyn_of(*d), g),
{
    match d {
        DynamicValue::Int64(i) => Some(ask_bits(f, FloatOp::FromInt(*i))),
        DynamicValue::UInt64(u) => Some(ask_bits(f, FloatOp::FromUInt(*u))),
        DynamicValue::Float64(b) => Some(*b),
        _ => None,
    }
}

/// How two numbers stand to each other; a NaN stands to nothing.
pub open spec fn rank_float(a: u64, b: u64) -> Result<Rank, Fault> {
    if nan(a) || nan(b) {
        Err(
            fault(
                ErrorCode::InvalidArgument,
                "NaN comparison is unordered; no implicit Equal"@,
            ),
        )
    } else if float_lt(a, b) {
        Ok(Rank::Less)
    } else if float_eq(a, b) {
        Ok(Rank::Equal)
    } else {
        Ok(Rank::Greater)
    }
}

fn rank_bits(a: u64, b: u64) -> (r: Result<Rank, SparrowError>)
    ensures
        crate::model::outcome(r) == rank_float(a, b),
{
    if is_nan(a) || is_nan(b) {
        Err(err(ErrorCode::InvalidArgument, "NaN comparison is unordered; no implicit Equal"))
    } else if is_float_lt(a, b) {
        Ok(Rank::Less)
    } else if is_float_eq(a, b) {
        Ok(Rank::Equal)
    } else {
        Ok(Rank::Greater)
    }
}

/// How two values stand to each other. Integers are compared as integers;
/// floating point is used only where one side is floating point.
pub open spec fn rank(a: Val, b: Val, g: Floats) -> Result<Rank, Fault> {
    match (a, b) {
        (Val::Int64(x), Val::Int64(y)) => Ok(rank_int(x as int, y as int)),
        (Val::UInt64(x), Val::UInt64(y)) => Ok(rank_int(x as int, y as int)),
        (Val::Int64(x), Val::UInt64(y)) if x >= 0 => Ok(rank_int(x as int, y as int)),
        (Val::UInt64(x), Val::Int64(y)) if y >= 0 => Ok(rank_int(x as int, y as int)),
        (Val::TimestampMicrosUTC(x), Val::TimestampMicrosUTC(y)) => Ok(
            rank_int(x as int, y as int),
        ),
        (Val::TimestampMicrosUTC(x), Val::Int64(y)) => Ok(rank_int(x as int, y as int)),
        (Val::Int64(x), Val::TimestampMicrosUTC(y)) => Ok(rank_int(x as int, y as int)),
        (Val::Float64(x), Val::Float64(y)) => rank_float(x, y),
        (Val::Utf8(x), Val::Utf8(y)) => Ok(rank_text(x, y)),
        _ => {
            let x = as_float(a, g);
            let y = as_float(b, g);
            if x is Some && y is Some && (a is Float64 || b is Float64) {
                rank_float(x->0, y->0)
            } else {
                Err(
                    fault(
                        ErrorCode::TypeMismatch,
                        "cannot compare "@ + type_of(a).name() + " and "@ + type_of(b).name(),
                    ),
                )
            }
        },
    }
}

/// Compares two values.
pub fn rank_scalars<F: Fn(FloatOp) -> FloatReply>(a: &Scalar, b: &Scalar, f: &F) -> (r: Result<
    Rank,
    SparrowError,
>)
    requires
        answers(*f),
    ensures
        forall|g: Floats| #[trigger] agrees(*f, g) ==> crate::model::outcome(r) == rank(a@, b@, g),
{
    match (a, b) {
        (Scalar::Int64(x), Scalar::Int64(y)) => Ok(rank_i64(*x, *y)),
        (Scalar::UInt64(x), Scalar::UInt64(y)) => Ok(rank_u64(*x, *y)),
        (Scalar::Int64(x), Scalar::UInt64(y)) if *x >= 0 => Ok(rank_u64(*x as u64, *y)),
        (Scalar::UInt64(x), Scalar::Int64(y)) if *y >= 0 => Ok(rank_u64(*x, *y as u64)),
        (Scalar::TimestampMicrosUTC(x), Scalar::TimestampMicrosUTC(y)) => Ok(rank_i64(*x, *y)),
        (Scalar::TimestampMicrosUTC(x), Scalar::Int64(y)) => Ok(rank_i64(*x, *y)),
        (Scalar::Int64(x), Scalar::TimestampMicrosUTC(y)) => Ok(rank_i64(*x, *y)),
        (Scalar::Float64(x), Scalar::Float64(y)) => rank_bits(*x, *y),
        (Scalar::Utf8(x), Scalar::Utf8(y)) => Ok(rank_str(x.as_str(), y.as_str())),
        _ => {
            let floating: bool = match (a, b) {
                (Scalar::Float64(_), _) => true,
                (_, Scalar::Float64(_)) => true,
                _ => false,
            };
            if let (Some(x), Some(y)) = (scalar_as_float(a, f), scalar_as_float(b, f)) {
                if floating {
                    return rank_bits(x, y);
                }
            }
            Err(
                SparrowError::new(
                    ErrorCode::TypeMismatch,
                    cat4(
                        "cannot compare ",
                        a.data_type().as_str(),
                        " and ",
                        b.data_type().as_str(),
                    ),
                ),
            )
        },
    }
}

/// Equality of dynamic values, numbers taken numerically.
pub open spec fn dyn_eq(a: Dyn, b: Dyn) -> bool
    decreases a,
{
    match (a, b) {
        (Dyn::Float64(x), Dyn::Float64(y)) => float_eq(x, y),
        (Dyn::Array(x), Dyn::Array(y)) => dyns_eq(x, y),
        (Dyn::Object(x), Dyn::Object(y)) => members_eq(x, y),
        _ => a == b,
    }
}

/// Equality of two lists of dynamic values.
pub open spec fn dyns_eq(a: Seq<Dyn>, b: Seq<Dyn>) -> bool
    decreases a,
{
    if a.len() != b.len() {
        false
    } else if a.len() == 0 {
        true
    } else {
        dyns_eq(a.drop_last(), b.drop_last()) && dyn_eq(a.last(), b.last())
    }
}

/// Equality of the members of two objects.
pub open spec fn members_eq(a: Seq<(Seq<char>, Dyn)>, b: Seq<(Seq<char>, Dyn)>) -> bool
    decreases a,
{
    if a.len() != b.len() {
        false
    } else if a.len() == 0 {
        true
    } else {
        members_eq(a.drop_last(), b.drop_last()) && a.last().0 == b.last().0 && dyn_eq(
            a.last().1,
            b.last().1,
        )
    }
}

fn same_bytes(a: &Vec<u8>, b: &Vec<u8>) -> (r: bool)
    ensures
        r == (a@ == b@),
{
    if a.len() != b.len() {
        return false;
    }
    let mut i: usize = 0;
    while i < a.len()
        invariant
            i <= a.len(),
            a.len() == b.len(),
            forall|j: int| 0 <= j < i ==> a@[j] == b@[j],
        decreases a.len() - i,
    {
        if a[i] != b[i] {
            return false;
        }
        i = i + 1;
    }
    assert(a@ =~= b@);
    true
}

proof fn lemma_dyns_eq_prefix(a: Seq<Dyn>, b: Seq<Dyn>, k: int)
    requires
        a.len() == b.len(),
        0 <= k <= a.len(),
        !dyns_eq(a.take(k), b.take(k)),
    ensures
        !dyns_eq(a, b),
    decreases a.len() - k,
{
    if k < a.len() {
        assert(a.take(k + 1).drop_last() == a.take(k));
        assert(b.take(k + 1).drop_last() == b.take(k));
        lemma_dyns_eq_prefix(a, b, k + 1);
    } else {
        assert(a.take(k) == a);
        assert(b.take(k) == b);
    }
}

proof fn lemma_members_eq_prefix(
    a: Seq<(Seq<char>, Dyn)>,
    b: Seq<(Seq<char>, Dyn)>,
    k: int,
)
    requires
        a.len() == b.len(),
        0 <= k <= a.len(),
        !members_eq(a.take(k), b.take(k)),
    ensures
        !members_eq(a, b),
    decreases a.len() - k,
{
    if k < a.len() {
        assert(a.take(k + 1).drop_last() == a.take(k));
        assert(b.take(k + 1).drop_last() == b.take(k));
        lemma_members_eq_prefix(a, b, k + 1);
    } else {
        assert(a.take(k) == a);
        assert(b.take(k) == b);
    }
}

fn dynamic_eq(a: &DynamicValue, b: &DynamicValue) -> (r: bool)
    ensures
        r == dyn_eq(dyn_of(*a), dyn_of(*b)),
    decreases a,
{
    match (a, b) {
        (DynamicValue::Null, DynamicValue::Null) => true,
        (DynamicValue::Bool(x), DynamicValue::Bool(y)) => *x == *y,
        (DynamicValue::Int64(x), DynamicValue::Int64(y)) => *x == *y,
        (DynamicValue::UInt64(x), DynamicValue::UInt64(y)) => *x == *y,
        (DynamicValue::Float64(x), DynamicValue::Float64(y)) => is_float_eq(*x, *y),
        (DynamicValue::Utf8(x), DynamicValue::Utf8(y)) => same(x.as_str(), y.as_str()),
        (DynamicValue::Bytes(x), DynamicValue::Bytes(y)) => same_bytes(x, y),
        (DynamicValue::Array(x), DynamicValue::Array(y)) => {
            let ghost p = dyns_of(x@);
            let ghost q = dyns_of(y@);
            proof {
                lemma_dyns(x@);
                lemma_dyns(y@);
            }
            if x.len() != y.len() {
                return false;
            }
            let mut i: usize = 0;
            assert(p.take(0) == q.take(0));
            while i < x.len()
                invariant
                    i <= x.len(),
                    x.len() == y.len(),
                    p.len() == x.len(),
                    q.len() == y.len(),
                    *a == DynamicValue::Array(*x),
                    forall|j: int| 0 <= j < x@.len() ==> #[trigger] p[j] == dyn_of(x@[j]),
                    forall|j: int| 0 <= j < y@.len() ==> #[trigger] q[j] == dyn_of(y@[j]),
                    dyn_of(*a) == Dyn::Array(p),
                    dyn_of(*b) == Dyn::Array(q),
                    dyns_eq(p.take(i as int), q.take(i as int)),
                decreases x.len() - i,
            {
                proof {
                    assert(decreases_to!(*a => a->Array_0));
                    assert(decreases_to!(a->Array_0 => a->Array_0@));
                    assert(decreases_to!(x@ => x@[i as int]));
                    assert(p.take(i + 1).drop_last() == p.take(i as int));
                    assert(q.take(i + 1).drop_last() == q.take(i as int));
                    assert(p.take(i + 1).last() == p[i as int]);
                    assert(q.take(i + 1).last() == q[i as int]);
                }
                if !dynamic_eq(&x[i], &y[i]) {
                    proof {
                        lemma_dyns_eq_prefix(p, q, i + 1);
                    }
                    return false;
                }
                i = i + 1;
            }
            assert(p.take(p.len() as int) == p);
            assert(q.take(q.len() as int) == q);
            true
        },
        (DynamicValue::Object(x), DynamicValue::Object(y)) => {
            let ghost p = members_of(x@);
            let ghost q = members_of(y@);
            proof {
                lemma_members(x@);
                lemma_members(y@);
            }
            if x.len() != y.len() {
                return false;
            }
            let mut i: usize = 0;
            assert(p.take(0) == q.take(0));
            while i < x.len()
                invariant
                    i <= x.len(),
                    x.len() == y.len(),
                    p.len() == x.len(),
                    q.len() == y.len(),
                    *a == DynamicValue::Object(*x),
                    forall|j: int|
                        0 <= j < x@.len() ==> #[trigger] p[j] == (x@[j].0@, dyn_of(x@[j].1)),
                    forall|j: int|
                        0 <= j < y@.len() ==> #[trigger] q[j] == (y@[j].0@, dyn_of(y@[j].1)),
                    dyn_of(*a) == Dyn::Object(p),
                    dyn_of(*b) == Dyn::Object(q),
                    members_eq(p.take(i as int), q.take(i as int)),
                decreases x.len() - i,
            {
                proof {
                    assert(decreases_to!(*a => a->Object_0));
                    assert(decreases_to!(a->Object_0 => a->Object_0@));
                    assert(decreases_to!(x@ => x@[i as int]));
                    assert(decreases_to!(x@[i as int] => x@[i as int].1));
                    assert(p.take(i + 1).drop_last() == p.take(i as int));
                    assert(q.take(i + 1).drop_last() == q.take(i as int));
                    assert(p.take(i + 1).last() == p[i as int]);
                    assert(q.take(i + 1).last() == q[i as int]);
                }
                if !same(x[i].0.as_str(), y[i].0.as_str()) || !dynamic_eq(&x[i].1, &y[i].1) {
                    proof {
                        lemma_members_eq_prefix(p, q, i + 1);
                    }
                    return false;
                }
                i = i + 1;
            }
            assert(p.take(p.len() as int) == p);
            assert(q.take(q.len() as int) == q);
            true
        },
        _ => false,
    }
}

/// Equality of values as expressions see it: integers by value across their
/// two types, numbers numerically, anything else only within its own type.
pub open spec fn val_eq(a: Val, b: Val) -> bool {
    match (a, b) {
        (Val::Int64(x), Val::UInt64(y)) => x == y,
        (Val::UInt64(x), Val::Int64(y)) => x == y,
        (Val::Float64(x), Val::Float64(y)) => float_eq(x, y),
        (Val::Dynamic(x), Val::Dynamic(y)) => dyn_eq(x, y),
        _ => a == b,
    }
}

/// Tests two values for equality.
pub fn scalars_eq(a: &Scalar, b: &Scalar) -> (r: bool)
    ensures
        r == val_eq(a@, b@),
{
    match (a, b) {
        (Scalar::Null, Scalar::Null) => true,
        (Scalar::Bool(x), Scalar::Bool(y)) => *x == *y,
        (Scalar::Int64(x), Scalar::Int64(y)) => *x == *y,
        (Scalar::UInt64(x), Scalar::UInt64(y)) => *x == *y,
        (Scalar::Int64(x), Scalar::UInt64(y)) => *x >= 0 && *x as u64 == *y,
        (Scalar::UInt64(x), Scalar::Int64(y)) => *y >= 0 && *x == *y as u64,
        (Scalar::Float64(x), Scalar::Float64(y)) => is_float_eq(*x, *y),
        (Scalar::Utf8(x), Scalar::Utf8(y)) => same(x.as_str(), y.as_str()),
        (Scalar::Bytes(x), Scalar::Bytes(y)) => same_bytes(x, y),
        (Scalar::TimestampMicrosUTC(x), Scalar::TimestampMicrosUTC(y)) => *x == *y,
        (Scalar::Dynamic(x), Scalar::Dynamic(y)) => dynamic_eq(x, y),
        _ => false,
    }
}

/// Division that drops the remainder, towards zero.
pub open spec fn quotient(a: int, b: int) -> int {
    let p = if a < 0 {
        -a
    } else {
        a
    };
    let q = if b < 0 {
        -b
    } else {
        b
    };
    if (a < 0) == (b < 0) {
        p / q
    } else {
        -(p / q)
    }
}

/// The result of an arithmetic operator over the integers.
pub open spec fn integer_result(op: BinaryOp, a: int, b: int) -> int {
    match op {
        BinaryOp::Add => a + b,
        BinaryOp::Sub => a - b,
        BinaryOp::Mul => a * b,
        _ => quotient(a, b),
    }
}

/// Whether the operator computes a number.
pub open spec fn arithmetic(op: BinaryOp) -> bool {
    op == BinaryOp::Add || op == BinaryOp::Sub || op == BinaryOp::Mul || op == BinaryOp::Div
}

/// Signed arithmetic: exact, NULL for a division by zero, an error where the
/// exact result does not fit.
pub open spec fn int_arith(op: BinaryOp, a: i64, b: i64) -> Result<Val, Fault> {
    if op == BinaryOp::Div && b == 0 {
        Ok(Val::Null)
    } else {
        let v = integer_result(op, a as int, b as int);
        if arithmetic(op) && i64::MIN <= v <= i64::MAX {
            Ok(Val::Int64(v as i64))
        } else {
            Err(fault(ErrorCode::IntegerOverflow, "checked integer arithmetic overflow"@))
        }
    }
}

/// Unsigned arithmetic, likewise.
pub open spec fn uint_arith(op: BinaryOp, a: u64, b: u64) -> Result<Val, Fault> {
    if op == BinaryOp::Div && b == 0 {
        Ok(Val::Null)
    } else {
        let v = integer_result(op, a as int, b as int);
        if arithmetic(op) && 0 <= v <= u64::MAX {
            Ok(Val::UInt64(v as u64))
        } else {
            Err(fault(ErrorCode::IntegerOverflow, "checked unsigned integer arithmetic overflow"@))
        }
    }
}

fn distance(a: i64) -> (r: u64)
    ensures
        r == if a < 0 {
            -a
        } else {
            a as int
        },
{
    if a < 0 {
        let m: i64 = -(a + 1);
        m as u64 + 1
    } else {
        a as u64
    }
}

fn checked_quotient(a: i64, b: i64) -> (r: Option<i64>)
    requires
        b != 0,
    ensures
        match r {
            Some(v) => v == quotient(a as int, b as int),
            None => !(i64::MIN <= quotient(a as int, b as int) <= i64::MAX),
        },
{
    let p: u64 = distance(a);
    let d: u64 = distance(b);
    let q: u64 = p / d;
    assert(q <= p) by (nonlinear_arith)
        requires
            q == p / d,
            d >= 1,
    ;
    if (a < 0) == (b < 0) {
        if q <= i64::MAX as u64 {
            Some(q as i64)
        } else {
            None
        }
    } else if q == 0x8000_0000_0000_0000 {
        Some(i64::MIN)
    } else {
        Some(-(q as i64))
    }
}

/// Computes signed arithmetic.
pub fn eval_int_arith(op: BinaryOp, left: i64, right: i64) -> (r: Result<Scalar, SparrowError>)
    ensures
        seen(r) == int_arith(op, left, right),
{
    let v: Option<i64> = match op {
        BinaryOp::Add => left.checked_add(right),
        BinaryOp::Sub => left.checked_sub(right),
        BinaryOp::Mul => left.checked_mul(right),
        BinaryOp::Div => {
            if right == 0 {
                return Ok(Scalar::Null);
            }
            checked_quotient(left, right)
        },
        _ => None,
    };
    match v {
        Some(x) => Ok(Scalar::Int64(x)),
        None => Err(err(ErrorCode::IntegerOverflow, "checked integer arithmetic overflow")),
    }
}

fn eval_uint_arith(op: BinaryOp, left: u64, right: u64) -> (r: Result<Scalar, SparrowError>)
    ensures
        seen(r) == uint_arith(op, left, right),
{
    let v: Option<u64> = match op {
        BinaryOp::Add => left.checked_add(right),
        BinaryOp::Sub => left.checked_sub(right),
        BinaryOp::Mul => left.checked_mul(right),
        BinaryOp::Div => {
            if right == 0 {
                return Ok(Scalar::Null);
            }
            Some(left / right)
        },
        _ => None,
    };
    proof {
        if op == BinaryOp::Div {
            assert(left / right <= left) by (nonlinear_arith)
                requires
                    right >= 1,
            ;
        }
    }
    match v {
        Some(x) => Ok(Scalar::UInt64(x)),
        None => Err(
            err(ErrorCode::IntegerOverflow, "checked unsigned integer arithmetic overflow"),
        ),
    }
}

/// Floating-point arithmetic; a division by zero is NULL.
pub open spec fn float_arith(op: BinaryOp, a: u64, b: u64, g: Floats) -> Val {
    match op {
        BinaryOp::Add => Val::Float64(bits(g(FloatAsk::Add(a, b)))),
        BinaryOp::Sub => Val::Float64(bits(g(FloatAsk::Sub(a, b)))),
        BinaryOp::Mul => Val::Float64(bits(g(FloatAsk::Mul(a, b)))),
        _ => if float_zero(b) {
            Val::Null
        } else {
            Val::Float64(bits(g(FloatAsk::Div(a, b))))
        },
    }
}

fn eval_float_arith<F: Fn(FloatOp) -> FloatReply>(op: BinaryOp, a: u64, b: u64, f: &F) -> (r:
    Scalar)
    requires
        answers(*f),
    ensures
        forall|g: Floats| #[trigger] agrees(*f, g) ==> r@ == float_arith(op, a, b, g),
{
    match op {
        BinaryOp::Add => Scalar::Float64(ask_bits(f, FloatOp::Add(a, b))),
        BinaryOp::Sub => Scalar::Float64(ask_bits(f, FloatOp::Sub(a, b))),
        BinaryOp::Mul => Scalar::Float64(ask_bits(f, FloatOp::Mul(a, b))),
        _ => if float_abs(b) == 0 {
            Scalar::Null
        } else {
            Scalar::Float64(ask_bits(f, FloatOp::Div(a, b)))
        },
    }
}

/// Arithmetic on two values that are not NULL.
pub open spec fn arith(op: BinaryOp, a: Val, b: Val, g: Floats) -> Result<Val, Fault> {
    if a is Dynamic || b is Dynamic {
        Err(
            fault(
                ErrorCode::TypeMismatch,
                "dynamic arithmetic requires an explicit CAST/TRY_CAST"@,
            ),
        )
    } else {
        match (a, b) {
            (Val::Int64(x), Val::Int64(y)) => int_arith(op, x, y),
            (Val::UInt64(x), Val::UInt64(y)) => uint_arith(op, x, y),
            (Val::Int64(x), Val::UInt64(y)) if y <= i64::MAX => int_arith(op, x, y as i64),
            (Val::UInt64(x), Val::Int64(y)) if x <= i64::MAX => int_arith(op, x as i64, y),
            _ => {
                let x = as_float(a, g);
                let y = as_float(b, g);
                if x is None || y is None {
                    Err(fault(ErrorCode::TypeMismatch, "arithmetic expects numeric"@))
                } else if !(a is Float64) && !(b is Float64) {
                    Err(
                        fault(
                            ErrorCode::TypeMismatch,
                            "integer arithmetic must not go through f64"@,
                        ),
                    )
                } else {
                    Ok(float_arith(op, x->0, y->0, g))
                }
            },
        }
    }
}

fn eval_arith<F: Fn(FloatOp) -> FloatReply>(op: BinaryOp, a: &Scalar, b: &Scalar, f: &F) -> (r:
    Result<Scalar, SparrowError>)
    requires
        answers(*f),
    ensures
        forall|g: Floats| #[trigger] agrees(*f, g) ==> seen(r) == arith(op, a@, b@, g),
{
    let dynamic: bool = match (a, b) {
        (Scalar::Dynamic(_), _) => true,
        (_, Scalar::Dynamic(_)) => true,
        _ => false,
    };
    if dynamic {
        return Err(
            err(ErrorCode::TypeMismatch, "dynamic arithmetic requires an explicit CAST/TRY_CAST"),
        );
    }
    match (a, b) {
        (Scalar::Int64(x), Scalar::Int64(y)) => eval_int_arith(op, *x, *y),
        (Scalar::UInt64(x), Scalar::UInt64(y)) => eval_uint_arith(op, *x, *y),
        (Scalar::Int64(x), Scalar::UInt64(y)) if *y <= i64::MAX as u64 => eval_int_arith(
            op,
            *x,
            *y as i64,
        ),
        (Scalar::UInt64(x), Scalar::Int64(y)) if *x <= i64::MAX as u64 => eval_int_arith(
            op,
            *x as i64,
            *y,
        ),
        _ => {
            let floating: bool = match (a, b) {
                (Scalar::Float64(_), _) => true,
                (_, Scalar::Float64(_)) => true,
                _ => false,
            };
            let x: Option<u64> = scalar_as_float(a, f);
            let y: Option<u64> = scalar_as_float(b, f);
            match (x, y) {
                (Some(p), Some(q)) => if floating {
                    Ok(eval_float_arith(op, p, q, f))
                } else {
                    Err(
                        err(
                            ErrorCode::TypeMismatch,
                            "integer arithmetic must not go through f64",
                        ),
                    )
                },
                _ => Err(err(ErrorCode::TypeMismatch, "arithmetic expects numeric")),
            }
        },
    }
}

/// A truth value: true, false or unknown; nothing where it is not one.
pub open spec fn truth(v: Val) -> Option<Option<bool>> {
    match v {
        Val::Bool(b) => Some(Some(b)),
        Val::Null => Some(None),
        _ => None,
    }
}

/// Three-valued AND and OR.
pub open spec fn logic(op: BinaryOp, a: Val, b: Val) -> Result<Val, Fault> {
    if truth(a) is None || truth(b) is None {
        Err(fault(ErrorCode::TypeMismatch, "logical op expects bool"@))
    } else {
        let x = truth(a)->0;
        let y = truth(b)->0;
        Ok(
            match op {
                BinaryOp::And => if x == Some(false) || y == Some(false) {
                    Val::Bool(false)
                } else if x == Some(true) && y == Some(true) {
                    Val::Bool(true)
                } else {
                    Val::Null
                },
                BinaryOp::Or => if x == Some(true) || y == Some(true) {
                    Val::Bool(true)
                } else if x == Some(false) && y == Some(false) {
                    Val::Bool(false)
                } else {
                    Val::Null
                },
                _ => Val::Null,
            },
        )
    }
}

/// Computes three-valued AND and OR.
pub fn eval_logic(op: BinaryOp, left: &Scalar, right: &Scalar) -> (r: Result<Scalar, SparrowError>)
    ensures
        seen(r) == logic(op, left@, right@),
{
    let lb: Option<bool> = match left {
        Scalar::Bool(v) => Some(*v),
        Scalar::Null => None,
        _ => {
            return Err(err(ErrorCode::TypeMismatch, "logical op expects bool"));
        },
    };
    let rb: Option<bool> = match right {
        Scalar::Bool(v) => Some(*v),
        Scalar::Null => None,
        _ => {
            return Err(err(ErrorCode::TypeMismatch, "logical op expects bool"));
        },
    };
    Ok(
        match (op, lb, rb) {
            (BinaryOp::And, Some(false), _) => Scalar::Bool(false),
            (BinaryOp::And, _, Some(false)) => Scalar::Bool(false),
            (BinaryOp::And, Some(true), Some(true)) => Scalar::Bool(true),
            (BinaryOp::Or, Some(true), _) => Scalar::Bool(true),
            (BinaryOp::Or, _, Some(true)) => Scalar::Bool(true),
            (BinaryOp::Or, Some(false), Some(false)) => Scalar::Bool(false),
            _ => Scalar::Null,
        },
    )
}

/// Whether a rank satisfies an ordering operator.
pub open spec fn satisfies(op: BinaryOp, o: Rank) -> bool {
    match op {
        BinaryOp::Lt => o == Rank::Less,
        BinaryOp::Lte => o != Rank::Greater,
        BinaryOp::Gt => o == Rank::Greater,
        _ => o != Rank::Less,
    }
}

/// The value of a binary operator.
pub open spec fn binary(op: BinaryOp, a: Val, b: Val, g: Floats) -> Result<Val, Fault> {
    if op == BinaryOp::And || op == BinaryOp::Or {
        logic(op, a, b)
    } else if a is Null || b is Null {
        Ok(Val::Null)
    } else if arithmetic(op) {
        arith(op, a, b, g)
    } else if op == BinaryOp::Eq {
        Ok(Val::Bool(val_eq(a, b)))
    } else if op == BinaryOp::NotEq {
        Ok(Val::Bool(!val_eq(a, b)))
    } else {
        match rank(a, b, g) {
            Ok(o) => Ok(Val::Bool(satisfies(op, o))),
            Err(e) => Err(e),
        }
    }
}

/// Evaluates a binary operator on two values.
pub fn eval_binary<F: Fn(FloatOp) -> FloatReply>(
    op: BinaryOp,
    left: &Scalar,
    right: &Scalar,
    f: &F,
) -> (r: Result<Scalar, SparrowError>)
    requires
        answers(*f),
    ensures
        forall|g: Floats| #[trigger] agrees(*f, g) ==> seen(r) == binary(op, left@, right@, g),
{
    match op {
        BinaryOp::And | BinaryOp::Or => {
            return eval_logic(op, left, right);
        },
        _ => {},
    }
    if left.is_null() || right.is_null() {
        return Ok(Scalar::Null);
    }
    match op {
        BinaryOp::Add | BinaryOp::Sub | BinaryOp::Mul | BinaryOp::Div => eval_arith(
            op,
            left,
            right,
            f,
        ),
        BinaryOp::Eq => Ok(Scalar::Bool(scalars_eq(left, right))),
        BinaryOp::NotEq => Ok(Scalar::Bool(!scalars_eq(left, right))),
        _ => match rank_scalars(left, right, f) {
            Ok(o) => Ok(
                Scalar::Bool(
                    match op {
                        BinaryOp::Lt => o == Rank::Less,
                        BinaryOp::Lte => o != Rank::Greater,
                        BinaryOp::Gt => o == Rank::Greater,
                        _ => o != Rank::Less,
                    },
                ),
            ),
            Err(e) => Err(e),
        },
    }
}

/// A signed decimal number: an optional sign and at least one digit.
pub open spec fn signed_number(s: Seq<char>) -> Option<int> {
    if s.len() == 0 || (s.len() == 1 && (s[0] == '+' || s[0] == '-')) {
        None
    } else if s[0] == '-' {
        match digits_value(s.skip(1), 0x8000_0000_0000_0000) {
            Ok(v) => Some(-(v as int)),
            Err(_) => None,
        }
    } else if s[0] == '+' {
        match digits_value(s.skip(1), 0x7fff_ffff_ffff_ffff) {
            Ok(v) => Some(v as int),
            Err(_) => None,
        }
    } else {
        match digits_value(s, 0x7fff_ffff_ffff_ffff) {
            Ok(v) => Some(v as int),
            Err(_) => None,
        }
    }
}

fn read_signed(s: &str) -> (r: Option<i64>)
    ensures
        match r {
            Some(v) => signed_number(s@) == Some(v as int),
            None => signed_number(s@) is None,
        },
{
    let a: Vec<char> = chars(s);
    if a.len() == 0 || (a.len() == 1 && (a[0] == '+' || a[0] == '-')) {
        return None;
    }
    assert(a@.subrange(1, a@.len() as int) == a@.skip(1));
    if a[0] == '-' {
        let t: Vec<char> = sub_chars(a.as_slice(), 1, a.len());
        match read_digits(t.as_slice(), 0x8000_0000_0000_0000) {
            Ok(v) => if v == 0x8000_0000_0000_0000 {
                Some(i64::MIN)
            } else if v < 0x8000_0000_0000_0000 {
                Some(-(v as i64))
            } else {
                proof {
                    lemma_digits_bounded(t@, 0x8000_0000_0000_0000);
                }
                None
            },
            Err(_) => None,
        }
    } else if a[0] == '+' {
        let t: Vec<char> = sub_chars(a.as_slice(), 1, a.len());
        match read_digits(t.as_slice(), 0x7fff_ffff_ffff_ffff) {
            Ok(v) => {
                proof {
                    lemma_digits_bounded(t@, 0x7fff_ffff_ffff_ffff);
                }
                Some(v as i64)
            },
            Err(_) => None,
        }
    } else {
        match read_digits(a.as_slice(), 0x7fff_ffff_ffff_ffff) {
            Ok(v) => {
                proof {
                    lemma_digits_bounded(a@, 0x7fff_ffff_ffff_ffff);
                }
                Some(v as i64)
            },
            Err(_) => None,
        }
    }
}

proof fn lemma_digits_bounded(s: Seq<char>, max: nat)
    ensures
        match digits_value(s, max) {
            Ok(v) => v <= max,
            Err(_) => true,
        },
{
}

/// A signed integer in decimal.
pub open spec fn int_text(v: int) -> Seq<char> {
    if v < 0 {
        "-"@ + decimal((-v) as nat)
    } else {
        decimal(v as nat)
    }
}

fn int_string(v: i64) -> (r: String)
    ensures
        r@ == int_text(v as int),
{
    let d: String = dec(distance(v));
    if v < 0 {
        cat2("-", d.as_str())
    } else {
        d
    }
}

/// The dynamic form of a value.
pub open spec fn to_dyn(v: Val) -> Dyn {
    match v {
        Val::Null => Dyn::Null,
        Val::Bool(x) => Dyn::Bool(x),
        Val::Int64(x) => Dyn::Int64(x),
        Val::UInt64(x) => Dyn::UInt64(x),
        Val::Float64(x) => Dyn::Float64(x),
        Val::Utf8(x) => Dyn::Utf8(x),
        Val::Bytes(x) => Dyn::Bytes(x),
        Val::TimestampMicrosUTC(x) => Dyn::Int64(x),
        Val::Dynamic(d) => d,
    }
}

/// Turns a value into its dynamic form.
pub fn dynamic_from_scalar(value: &Scalar) -> (r: DynamicValue)
    ensures
        dyn_of(r) == to_dyn(value@),
{
    match value {
        Scalar::Null => DynamicValue::Null,
        Scalar::Bool(v) => DynamicValue::Bool(*v),
        Scalar::Int64(v) => DynamicValue::Int64(*v),
        Scalar::UInt64(v) => DynamicValue::UInt64(*v),
        Scalar::Float64(v) => DynamicValue::Float64(*v),
        Scalar::Utf8(s) => DynamicValue::Utf8(s.clone()),
        Scalar::Bytes(b) => DynamicValue::Bytes(b.clone()),
        Scalar::TimestampMicrosUTC(v) => DynamicValue::Int64(*v),
        Scalar::Dynamic(d) => d.clone(),
    }
}

/// What a failed conversion gives: NULL where failing is allowed.
pub open spec fn cast_failure(text: Seq<char>, allowed: bool) -> Result<Val, Fault> {
    if allowed {
        Ok(Val::Null)
    } else {
        Err(fault(ErrorCode::TypeMismatch, text))
    }
}

fn fail_cast(text: String, allowed: bool) -> (r: Result<Scalar, SparrowError>)
    ensures
        seen(r) == cast_failure(text@, allowed),
{
    if allowed {
        Ok(Scalar::Null)
    } else {
        Err(SparrowError::new(ErrorCode::TypeMismatch, text))
    }
}

/// The value of a conversion.
pub open spec fn converted(v: Val, t: DataType, allowed: bool, g: Floats) -> Result<Val, Fault> {
    match (v, t) {
        (Val::Null, _) => Ok(Val::Null),
        (Val::Int64(x), DataType::Int64) => Ok(v),
        (Val::Int64(x), DataType::UInt64) if x >= 0 => Ok(Val::UInt64(x as u64)),
        (Val::Int64(x), DataType::Float64) => Ok(Val::Float64(bits(g(FloatAsk::FromInt(x))))),
        (Val::Int64(x), DataType::Utf8) => Ok(Val::Utf8(int_text(x as int))),
        (Val::UInt64(x), DataType::UInt64) => Ok(v),
        (Val::UInt64(x), DataType::Int64) if x <= i64::MAX => Ok(Val::Int64(x as i64)),
        (Val::UInt64(x), DataType::Float64) => Ok(Val::Float64(bits(g(FloatAsk::FromUInt(x))))),
        (Val::Float64(x), DataType::Float64) => Ok(v),
        (Val::Float64(x), DataType::Int64) => Ok(Val::Int64(int_in(g(FloatAsk::ToInt(x))))),
        (Val::Utf8(s), DataType::Utf8) => Ok(v),
        (Val::Utf8(s), DataType::Int64) => match signed_number(s) {
            Some(n) => Ok(Val::Int64(n as i64)),
            None => cast_failure("cannot CAST utf8 '"@ + s + "' to int64"@, allowed),
        },
        (Val::Utf8(s), DataType::Float64) => match g(FloatAsk::Parse(s)) {
            FloatReply::Bits(b) => Ok(Val::Float64(b)),
            _ => cast_failure("cannot CAST utf8 '"@ + s + "' to float64"@, allowed),
        },
        (Val::Bool(x), DataType::Bool) => Ok(v),
        (Val::Dynamic(Dyn::Int64(x)), DataType::Int64) => Ok(Val::Int64(x)),
        (Val::Dynamic(Dyn::Utf8(s)), DataType::Utf8) => Ok(Val::Utf8(s)),
        (Val::Dynamic(d), DataType::Float64) => match dyn_as_float(d, g) {
            Some(b) => Ok(Val::Float64(b)),
            None => cast_failure("cannot CAST dynamic to float64"@, allowed),
        },
        (_, DataType::Dynamic) => Ok(Val::Dynamic(to_dyn(v))),
        _ => cast_failure("cannot CAST "@ + type_of(v).name() + " to "@ + t.name(), allowed),
    }
}

/// Converts a value to another type.
pub fn cast<F: Fn(FloatOp) -> FloatReply>(
    value: &Scalar,
    target: DataType,
    try_cast: bool,
    f: &F,
) -> (r: Result<Scalar, SparrowError>)
    requires
        answers(*f),
    ensures
        forall|g: Floats|
            #[trigger] agrees(*f, g) ==> seen(r) == converted(value@, target, try_cast, g),
{
    match (value, target) {
        (Scalar::Null, _) => Ok(Scalar::Null),
        (Scalar::Int64(v), DataType::Int64) => Ok(Scalar::Int64(*v)),
        (Scalar::Int64(v), DataType::UInt64) if *v >= 0 => Ok(Scalar::UInt64(*v as u64)),
        (Scalar::Int64(v), DataType::Float64) => Ok(
            Scalar::Float64(ask_bits(f, FloatOp::FromInt(*v))),
        ),
        (Scalar::Int64(v), DataType::Utf8) => Ok(Scalar::Utf8(int_string(*v))),
        (Scalar::UInt64(v), DataType::UInt64) => Ok(Scalar::UInt64(*v)),
        (Scalar::UInt64(v), DataType::Int64) if *v <= i64::MAX as u64 => Ok(
            Scalar::Int64(*v as i64),
        ),
        (Scalar::UInt64(v), DataType::Float64) => Ok(
            Scalar::Float64(ask_bits(f, FloatOp::FromUInt(*v))),
        ),
        (Scalar::Float64(v), DataType::Float64) => Ok(Scalar::Float64(*v)),
        (Scalar::Float64(v), DataType::Int64) => Ok(
            Scalar::Int64(ask_int(f, FloatOp::ToInt(*v))),
        ),
        (Scalar::Utf8(s), DataType::Utf8) => Ok(Scalar::Utf8(s.clone())),
        (Scalar::Utf8(s), DataType::Int64) => match read_signed(s.as_str()) {
            Some(v) => Ok(Scalar::Int64(v)),
            None => fail_cast(cat3("cannot CAST utf8 '", s.as_str(), "' to int64"), try_cast),
        },
        (Scalar::Utf8(s), DataType::Float64) => match f(FloatOp::Parse(s.clone())) {
            FloatReply::Bits(b) => Ok(Scalar::Float64(b)),
            _ => fail_cast(cat3("cannot CAST utf8 '", s.as_str(), "' to float64"), try_cast),
        },
        (Scalar::Bool(v), DataType::Bool) => Ok(Scalar::Bool(*v)),
        (Scalar::Dynamic(DynamicValue::Int64(v)), DataType::Int64) => Ok(Scalar::Int64(*v)),
        (Scalar::Dynamic(DynamicValue::Utf8(s)), DataType::Utf8) => Ok(Scalar::Utf8(s.clone())),
        (Scalar::Dynamic(d), DataType::Float64) => match dynamic_as_float(d, f) {
            Some(b) => Ok(Scalar::Float64(b)),
            None => fail_cast("cannot CAST dynamic to float64".to_owned(), try_cast),
        },
        (_, DataType::Dynamic) => Ok(Scalar::Dynamic(dynamic_from_scalar(value))),
        _ => fail_cast(
            cat4("cannot CAST ", value.data_type().as_str(), " to ", target.as_str()),
            try_cast,
        ),
    }
}

/// Whether a call of `name` with `argc` arguments is well formed; the fault
/// where it is not.
pub open spec fn arity_fault(name: Seq<char>, argc: nat) -> Option<Fault> {
    let n = lowered(name);
    if n == "abs"@ || n == "lower"@ || n == "upper"@ || n == "length"@ || n == "char_length"@ {
        if argc != 1 {
            Some(
                fault(
                    ErrorCode::InvalidArgument,
                    name + " requires 1 argument, got "@ + decimal(argc),
                ),
            )
        } else {
            None
        }
    } else if n == "coalesce"@ {
        if argc == 0 {
            Some(fault(ErrorCode::InvalidArgument, "coalesce requires at least 1 argument"@))
        } else {
            None
        }
    } else if n == "nullif"@ {
        if argc != 2 {
            Some(fault(ErrorCode::InvalidArgument, "nullif requires 2 arguments"@))
        } else {
            None
        }
    } else {
        None
    }
}

/// Checks how many arguments a builtin is called with.
pub fn check_call_arity(name: &str, argc: usize) -> (r: Result<(), SparrowError>)
    ensures
        match r {
            Ok(()) => arity_fault(name@, argc as nat) is None,
            Err(e) => arity_fault(name@, argc as nat) == Some(e@),
        },
{
    let n: String = to_lower(name);
    let n: &str = n.as_str();
    if same(n, "abs") || same(n, "lower") || same(n, "upper") || same(n, "length") || same(
        n,
        "char_length",
    ) {
        if argc != 1 {
            return Err(
                SparrowError::new(
                    ErrorCode::InvalidArgument,
                    cat3(name, " requires 1 argument, got ", dec(argc as u64).as_str()),
                ),
            );
        }
    } else if same(n, "coalesce") {
        if argc == 0 {
            return Err(err(ErrorCode::InvalidArgument, "coalesce requires at least 1 argument"));
        }
    } else if same(n, "nullif") {
        if argc != 2 {
            return Err(err(ErrorCode::InvalidArgument, "nullif requires 2 arguments"));
        }
    }
    Ok(())
}

/// The first value that is not NULL.
pub open spec fn first_present(vs: Seq<Val>) -> Val
    decreases vs.len(),
{
    if vs.len() == 0 {
        Val::Null
    } else if !(vs[0] is Null) {
        vs[0]
    } else {
        first_present(vs.skip(1))
    }
}

fn coalesce(vs: &Vec<Scalar>) -> (r: Scalar)
    ensures
        r@ == first_present(vals(vs@)),
{
    let mut i: usize = 0;
    let ghost m = vals(vs@);
    assert(m.skip(0) == m);
    while i < vs.len()
        invariant
            i <= vs.len(),
            m == vals(vs@),
            first_present(m) == first_present(m.skip(i as int)),
        decreases vs.len() - i,
    {
        assert(m.skip(i as int)[0] == vs@[i as int]@);
        if !vs[i].is_null() {
            return vs[i].clone();
        }
        assert(m.skip(i as int).skip(1) == m.skip(i + 1));
        i = i + 1;
    }
    Scalar::Null
}

/// The extreme of the values that are not NULL, the earliest among equals.
pub open spec fn extreme(vs: Seq<Val>, greatest: bool, g: Floats) -> Result<Option<Val>, Fault>
    decreases vs.len(),
{
    if vs.len() == 0 {
        Ok(None)
    } else {
        match extreme(vs.drop_last(), greatest, g) {
            Err(e) => Err(e),
            Ok(acc) => {
                let v = vs.last();
                if v is Null {
                    Ok(acc)
                } else {
                    match acc {
                        None => Ok(Some(v)),
                        Some(p) => match rank(p, v, g) {
                            Err(e) => Err(e),
                            Ok(o) => if greatest {
                                Ok(
                                    Some(
                                        if o == Rank::Less {
                                            v
                                        } else {
                                            p
                                        },
                                    ),
                                )
                            } else {
                                Ok(
                                    Some(
                                        if o == Rank::Greater {
                                            v
                                        } else {
                                            p
                                        },
                                    ),
                                )
                            },
                        },
                    }
                }
            },
        }
    }
}

proof fn lemma_extreme_error_stays(vs: Seq<Val>, k: int, greatest: bool, g: Floats)
    requires
        0 <= k <= vs.len(),
        extreme(vs.take(k), greatest, g) is Err,
    ensures
        extreme(vs, greatest, g) == extreme(vs.take(k), greatest, g),
    decreases vs.len() - k,
{
    if k < vs.len() {
        assert(vs.take(k + 1).drop_last() == vs.take(k));
        lemma_extreme_error_stays(vs, k + 1, greatest, g);
    } else {
        assert(vs.take(k) == vs);
    }
}

spec fn opt_val(o: Option<Scalar>) -> Option<Val> {
    match o {
        Some(v) => Some(v@),
        None => None,
    }
}

fn find_extreme<F: Fn(FloatOp) -> FloatReply>(vs: &Vec<Scalar>, greatest: bool, f: &F) -> (r:
    Result<Scalar, SparrowError>)
    requires
        answers(*f),
    ensures
        forall|g: Floats| #[trigger]
            agrees(*f, g) ==> match extreme(vals(vs@), greatest, g) {
                Err(e) => seen(r) == Err::<Val, Fault>(e),
                Ok(Some(v)) => seen(r) == Ok::<Val, Fault>(v),
                Ok(None) => seen(r) == Ok::<Val, Fault>(Val::Null),
            },
{
    let mut acc: Option<Scalar> = None;
    let mut i: usize = 0;
    let ghost m = vals(vs@);
    assert(m.take(0) == Seq::<Val>::empty());
    while i < vs.len()
        invariant
            i <= vs.len(),
            m == vals(vs@),
            answers(*f),
            forall|g: Floats| #[trigger]
                agrees(*f, g) ==> extreme(m.take(i as int), greatest, g) == Ok::<
                    Option<Val>,
                    Fault,
                >(opt_val(acc)),
        decreases vs.len() - i,
    {
        assert(m.take(i + 1).drop_last() == m.take(i as int));
        assert(m.take(i + 1).last() == vs@[i as int]@);
        if !vs[i].is_null() {
            let next: Scalar = match &acc {
                None => vs[i].clone(),
                Some(p) => match rank_scalars(p, &vs[i], f) {
                    Err(e) => {
                        proof {
                            assert forall|g: Floats| #[trigger] agrees(*f, g) implies extreme(
                                m,
                                greatest,
                                g,
                            ) == Err::<Option<Val>, Fault>(e@) by {
                                lemma_extreme_error_stays(m, i + 1, greatest, g);
                            }
                        }
                        return Err(e);
                    },
                    Ok(o) => if greatest {
                        if o == Rank::Less {
                            vs[i].clone()
                        } else {
                            p.clone()
                        }
                    } else {
                        if o == Rank::Greater {
                            vs[i].clone()
                        } else {
                            p.clone()
                        }
                    },
                },
            };
            acc = Some(next);
        }
        i = i + 1;
    }
    assert(m.take(m.len() as int) == m);
    match acc {
        Some(v) => Ok(v),
        None => Ok(Scalar::Null),
    }
}

/// The value of a builtin on evaluated arguments.
pub open spec fn called(name: Seq<char>, vs: Seq<Val>, g: Floats) -> Result<Val, Fault> {
    let n = lowered(name);
    if n == "abs"@ {
        if vs.len() == 0 {
            Err(fault(ErrorCode::InvalidArgument, "abs requires 1 argument"@))
        } else {
            match vs[0] {
                Val::Int64(v) => if v == i64::MIN {
                    Err(fault(ErrorCode::IntegerOverflow, "abs(Int64::MIN) overflows"@))
                } else {
                    Ok(
                        Val::Int64(
                            if v < 0 {
                                (-v) as i64
                            } else {
                                v
                            },
                        ),
                    )
                },
                Val::Float64(b) => Ok(Val::Float64(magnitude(b))),
                Val::Null => Ok(Val::Null),
                _ => Err(fault(ErrorCode::TypeMismatch, "abs expects numeric"@)),
            }
        }
    } else if n == "lower"@ {
        if vs.len() > 0 && vs[0] is Utf8 {
            Ok(Val::Utf8(lowered(vs[0]->Utf8_0)))
        } else if vs.len() > 0 && vs[0] is Null {
            Ok(Val::Null)
        } else {
            Err(fault(ErrorCode::TypeMismatch, "lower expects utf8"@))
        }
    } else if n == "upper"@ {
        if vs.len() > 0 && vs[0] is Utf8 {
            Ok(Val::Utf8(uppered(vs[0]->Utf8_0)))
        } else if vs.len() > 0 && vs[0] is Null {
            Ok(Val::Null)
        } else {
            Err(fault(ErrorCode::TypeMismatch, "upper expects utf8"@))
        }
    } else if n == "length"@ || n == "char_length"@ {
        if vs.len() > 0 && vs[0] is Utf8 {
            Ok(Val::Int64(vs[0]->Utf8_0.len() as i64))
        } else if vs.len() > 0 && vs[0] is Null {
            Ok(Val::Null)
        } else {
            Err(fault(ErrorCode::TypeMismatch, "length expects utf8"@))
        }
    } else if n == "coalesce"@ {
        if vs.len() == 0 {
            Err(fault(ErrorCode::InvalidArgument, "coalesce requires at least 1 argument"@))
        } else {
            Ok(first_present(vs))
        }
    } else if n == "nullif"@ {
        if vs.len() != 2 {
            Err(fault(ErrorCode::InvalidArgument, "nullif requires 2 arguments"@))
        } else if val_eq(vs[0], vs[1]) {
            Ok(Val::Null)
        } else {
            Ok(vs[0])
        }
    } else if n == "greatest"@ || n == "least"@ {
        if vs.len() == 0 {
            Err(fault(ErrorCode::InvalidArgument, name + " requires at least 1 argument"@))
        } else {
            match extreme(vs, n == "greatest"@, g) {
                Err(e) => Err(e),
                Ok(Some(v)) => Ok(v),
                Ok(None) => Ok(Val::Null),
            }
        }
    } else {
        Err(fault(ErrorCode::FeatureUnavailable, "unknown function '"@ + n + "'"@))
    }
}

fn text_length(s: &str) -> (r: i64)
    ensures
        r == s@.len() as i64,
{
    let a: Vec<char> = chars(s);
    a.len() as i64
}

/// Calls a builtin on evaluated arguments.
pub fn eval_call_values<F: Fn(FloatOp) -> FloatReply>(name: &str, vs: &Vec<Scalar>, f: &F) -> (r:
    Result<Scalar, SparrowError>)
    requires
        answers(*f),
    ensures
        forall|g: Floats| #[trigger] agrees(*f, g) ==> seen(r) == called(name@, vals(vs@), g),
{
    let n: String = to_lower(name);
    let n: &str = n.as_str();
    let ghost m = vals(vs@);
    assert(m.len() == vs.len());
    assert(forall|i: int| 0 <= i < vs.len() ==> #[trigger] m[i] == vs@[i]@);
    if same(n, "abs") {
        if vs.len() == 0 {
            return Err(err(ErrorCode::InvalidArgument, "abs requires 1 argument"));
        }
        match &vs[0] {
            Scalar::Int64(v) => if *v == i64::MIN {
                Err(err(ErrorCode::IntegerOverflow, "abs(Int64::MIN) overflows"))
            } else if *v < 0 {
                Ok(Scalar::Int64(-*v))
            } else {
                Ok(Scalar::Int64(*v))
            },
            Scalar::Float64(b) => Ok(Scalar::Float64(float_abs(*b))),
            Scalar::Null => Ok(Scalar::Null),
            _ => Err(err(ErrorCode::TypeMismatch, "abs expects numeric")),
        }
    } else if same(n, "lower") {
        if vs.len() > 0 {
            match &vs[0] {
                Scalar::Utf8(s) => {
                    return Ok(Scalar::Utf8(to_lower(s.as_str())));
                },
                Scalar::Null => {
                    return Ok(Scalar::Null);
                },
                _ => {},
            }
        }
        Err(err(ErrorCode::TypeMismatch, "lower expects utf8"))
    } else if same(n, "upper") {
        if vs.len() > 0 {
            match &vs[0] {
                Scalar::Utf8(s) => {
                    return Ok(Scalar::Utf8(to_upper(s.as_str())));
                },
                Scalar::Null => {
                    return Ok(Scalar::Null);
                },
                _ => {},
            }
        }
        Err(err(ErrorCode::TypeMismatch, "upper expects utf8"))
    } else if same(n, "length") || same(n, "char_length") {
        if vs.len() > 0 {
            match &vs[0] {
                Scalar::Utf8(s) => {
                    return Ok(Scalar::Int64(text_length(s.as_str())));
                },
                Scalar::Null => {
                    return Ok(Scalar::Null);
                },
                _ => {},
            }
        }
        Err(err(ErrorCode::TypeMismatch, "length expects utf8"))
    } else if same(n, "coalesce") {
        if vs.len() == 0 {
            return Err(err(ErrorCode::InvalidArgument, "coalesce requires at least 1 argument"));
        }
        Ok(coalesce(vs))
    } else if same(n, "nullif") {
        if vs.len() != 2 {
            return Err(err(ErrorCode::InvalidArgument, "nullif requires 2 arguments"));
        }
        if scalars_eq(&vs[0], &vs[1]) {
            Ok(Scalar::Null)
        } else {
            Ok(vs[0].clone())
        }
    } else if same(n, "greatest") || same(n, "least") {
        if vs.len() == 0 {
            return Err(
                SparrowError::new(
                    ErrorCode::InvalidArgument,
                    cat2(name, " requires at least 1 argument"),
                ),
            );
        }
        find_extreme(vs, same(n, "greatest"), f)
    } else {
        Err(
            SparrowError::new(
                ErrorCode::FeatureUnavailable,
                cat3("unknown function '", n, "'"),
            ),
        )
    }
}

/// The value that extracting `key` gives.
pub open spec fn extracted(v: Val, key: Seq<char>) -> Result<Val, Fault> {
    match v {
        Val::Dynamic(d) => Ok(
            match member(d, key) {
                None => Val::Null,
                Some(Dyn::Null) => Val::Null,
                Some(Dyn::Bool(x)) => Val::Bool(x),
                Some(Dyn::Int64(x)) => Val::Int64(x),
                Some(Dyn::UInt64(x)) => Val::UInt64(x),
                Some(Dyn::Float64(x)) => Val::Float64(x),
                Some(Dyn::Utf8(x)) => Val::Utf8(x),
                Some(Dyn::Bytes(x)) => Val::Bytes(x),
                Some(other) => Val::Dynamic(other),
            },
        ),
        Val::Null => Ok(Val::Null),
        _ => Err(
            fault(
                ErrorCode::TypeMismatch,
                "dynamic extract requires Dynamic, got "@ + type_of(v).name(),
            ),
        ),
    }
}

/// Extracts a member of a dynamic object.
pub fn extract(v: &Scalar, key: &str) -> (r: Result<Scalar, SparrowError>)
    ensures
        seen(r) == extracted(v@, key@),
{
    match v {
        Scalar::Dynamic(d) => Ok(
            match d.get(key) {
                None => Scalar::Null,
                Some(DynamicValue::Null) => Scalar::Null,
                Some(DynamicValue::Bool(x)) => Scalar::Bool(*x),
                Some(DynamicValue::Int64(x)) => Scalar::Int64(*x),
                Some(DynamicValue::UInt64(x)) => Scalar::UInt64(*x),
                Some(DynamicValue::Float64(x)) => Scalar::Float64(*x),
                Some(DynamicValue::Utf8(x)) => Scalar::Utf8(x.clone()),
                Some(DynamicValue::Bytes(x)) => Scalar::Bytes(x.clone()),
                Some(other) => Scalar::Dynamic(other.clone()),
            },
        ),
        Scalar::Null => Ok(Scalar::Null),
        _ => Err(
            SparrowError::new(
                ErrorCode::TypeMismatch,
                cat2("dynamic extract requires Dynamic, got ", v.data_type().as_str()),
            ),
        ),
    }
}

/// Three-valued NOT.
pub open spec fn negated(v: Val) -> Result<Val, Fault> {
    match v {
        Val::Bool(b) => Ok(Val::Bool(!b)),
        Val::Null => Ok(Val::Null),
        _ => Err(fault(ErrorCode::TypeMismatch, "NOT expects bool, got "@ + type_of(v).name())),
    }
}

/// Computes three-valued NOT.
pub fn negate(v: &Scalar) -> (r: Result<Scalar, SparrowError>)
    ensures
        seen(r) == negated(v@),
{
    match v {
        Scalar::Bool(b) => Ok(Scalar::Bool(!*b)),
        Scalar::Null => Ok(Scalar::Null),
        _ => Err(
            SparrowError::new(
                ErrorCode::TypeMismatch,
                cat2("NOT expects bool, got ", v.data_type().as_str()),
            ),
        ),
    }
}

/// The fault for a column that the schema does not have.
pub open spec fn unknown_column(name: Seq<char>) -> Fault {
    fault(ErrorCode::InvalidArgument, "unknown column '"@ + name + "'"@)
}

/// The value of an expression on a row. A row that is too short reads as NULL.
pub open spec fn value(
    e: Expr,
    fields: Seq<crate::model::Field>,
    row: Seq<Val>,
    g: Floats,
) -> Result<Val, Fault>
    decreases e,
{
    match e {
        Expr::Column { name } => match column(fields, name@) {
            None => Err(unknown_column(name@)),
            Some(i) => Ok(
                if i < row.len() {
                    row[i]
                } else {
                    Val::Null
                },
            ),
        },
        Expr::Literal(s) => Ok(s@),
        Expr::Cast { expr, target } => match value(*expr, fields, row, g) {
            Ok(v) => converted(v, target, false, g),
            Err(e) => Err(e),
        },
        Expr::TryCast { expr, target } => match value(*expr, fields, row, g) {
            Ok(v) => converted(v, target, true, g),
            Err(e) => Err(e),
        },
        Expr::Binary { op, left, right } => match value(*left, fields, row, g) {
            Err(e) => Err(e),
            Ok(a) => match value(*right, fields, row, g) {
                Err(e) => Err(e),
                Ok(b) => binary(op, a, b, g),
            },
        },
        Expr::IsNull(inner) => match value(*inner, fields, row, g) {
            Ok(v) => Ok(Val::Bool(v is Null)),
            Err(e) => Err(e),
        },
        Expr::IsNotNull(inner) => match value(*inner, fields, row, g) {
            Ok(v) => Ok(Val::Bool(!(v is Null))),
            Err(e) => Err(e),
        },
        Expr::Not(inner) => match value(*inner, fields, row, g) {
            Ok(v) => negated(v),
            Err(e) => Err(e),
        },
        Expr::Call { name, args } => match arity_fault(name@, args@.len()) {
            Some(e) => Err(e),
            None => match values(args@, fields, row, g) {
                Err(e) => Err(e),
                Ok(vs) => called(name@, vs, g),
            },
        },
        Expr::DynamicGet { expr, key } => match value(*expr, fields, row, g) {
            Ok(v) => extracted(v, key@),
            Err(e) => Err(e),
        },
    }
}

/// The values of a list of expressions; the first fault where one fails.
pub open spec fn values(
    args: Seq<Expr>,
    fields: Seq<crate::model::Field>,
    row: Seq<Val>,
    g: Floats,
) -> Result<Seq<Val>, Fault>
    decreases args,
{
    if args.len() == 0 {
        Ok(Seq::empty())
    } else {
        match values(args.drop_last(), fields, row, g) {
            Err(e) => Err(e),
            Ok(vs) => match value(args.last(), fields, row, g) {
                Err(e) => Err(e),
                Ok(v) => Ok(vs.push(v)),
            },
        }
    }
}

proof fn lemma_values_error_stays(
    args: Seq<Expr>,
    k: int,
    fields: Seq<crate::model::Field>,
    row: Seq<Val>,
    g: Floats,
)
    requires
        0 <= k <= args.len(),
        values(args.take(k), fields, row, g) is Err,
    ensures
        values(args, fields, row, g) == values(args.take(k), fields, row, g),
    decreases args.len() - k,
{
    if k < args.len() {
        assert(args.take(k + 1).drop_last() == args.take(k));
        lemma_values_error_stays(args, k + 1, fields, row, g);
    } else {
        assert(args.take(k) == args);
    }
}

/// Evaluates an expression on a row.
pub fn eval<F: Fn(FloatOp) -> FloatReply>(
    expr: &Expr,
    schema: &Schema,
    row: &[Scalar],
    f: &F,
) -> (r: Result<Scalar, SparrowError>)
    requires
        answers(*f),
    ensures
        forall|g: Floats|
            #[trigger] agrees(*f, g) ==> seen(r) == value(
                *expr,
                schema.fields@,
                vals(row@),
                g,
            ),
    decreases expr,
{
    match expr {
        Expr::Column { name } => match schema.index_of_name(name.as_str()) {
            None => Err(
                SparrowError::new(
                    ErrorCode::InvalidArgument,
                    cat3("unknown column '", name.as_str(), "'"),
                ),
            ),
            Some(i) => if i < row.len() {
                Ok(row[i].clone())
            } else {
                Ok(Scalar::Null)
            },
        },
        Expr::Literal(s) => Ok(s.clone()),
        Expr::Cast { expr, target } => {
            let v: Scalar = match eval(expr, schema, row, f) {
                Ok(v) => v,
                Err(e) => {
                    return Err(e);
                },
            };
            cast(&v, *target, false, f)
        },
        Expr::TryCast { expr, target } => {
            let v: Scalar = match eval(expr, schema, row, f) {
                Ok(v) => v,
                Err(e) => {
                    return Err(e);
                },
            };
            cast(&v, *target, true, f)
        },
        Expr::Binary { op, left, right } => {
            let a: Scalar = match eval(left, schema, row, f) {
                Ok(v) => v,
                Err(e) => {
                    return Err(e);
                },
            };
            let b: Scalar = match eval(right, schema, row, f) {
                Ok(v) => v,
                Err(e) => {
                    return Err(e);
                },
            };
            eval_binary(*op, &a, &b, f)
        },
        Expr::IsNull(inner) => match eval(inner, schema, row, f) {
            Ok(v) => Ok(Scalar::Bool(v.is_null())),
            Err(e) => Err(e),
        },
        Expr::IsNotNull(inner) => match eval(inner, schema, row, f) {
            Ok(v) => Ok(Scalar::Bool(!v.is_null())),
            Err(e) => Err(e),
        },
        Expr::Not(inner) => match eval(inner, schema, row, f) {
            Ok(v) => negate(&v),
            Err(e) => Err(e),
        },
        Expr::Call { name, args } => {
            match check_call_arity(name.as_str(), args.len()) {
                Ok(()) => {},
                Err(e) => {
                    return Err(e);
                },
            }
            let mut vs: Vec<Scalar> = Vec::new();
            let mut i: usize = 0;
            assert(vals(vs@) == Seq::<Val>::empty());
            assert(args@.take(0) == Seq::<Expr>::empty());
            while i < args.len()
                invariant
                    i <= args.len(),
                    answers(*f),
                    *expr == (Expr::Call { name: *name, args: *args }),
                    arity_fault(name@, args@.len()) is None,
                    forall|g: Floats| #[trigger]
                        agrees(*f, g) ==> values(
                            args@.take(i as int),
                            schema.fields@,
                            vals(row@),
                            g,
                        ) == Ok::<Seq<Val>, Fault>(vals(vs@)),
                decreases args.len() - i,
            {
                let ghost before = vs@;
                proof {
                    assert(decreases_to!(*expr => expr->args));
                    assert(decreases_to!(expr->args => expr->args@));
                    assert(decreases_to!(args@ => args@[i as int]));
                    assert(args@.take(i + 1).drop_last() == args@.take(i as int));
                    assert(args@.take(i + 1).last() == args@[i as int]);
                }
                match eval(&args[i], schema, row, f) {
                    Ok(v) => {
                        vs.push(v);
                        assert(vals(vs@) == vals(before).push(v@));
                    },
                    Err(e) => {
                        proof {
                            assert forall|g: Floats| #[trigger] agrees(*f, g) implies values(
                                args@,
                                schema.fields@,
                                vals(row@),
                                g,
                            ) == Err::<Seq<Val>, Fault>(e@) by {
                                lemma_values_error_stays(
                                    args@,
                                    i + 1,
                                    schema.fields@,
                                    vals(row@),
                                    g,
                                );
                            }
                        }
                        return Err(e);
                    },
                }
                i = i + 1;
            }
            assert(args@.take(args@.len() as int) == args@);
            eval_call_values(name.as_str(), &vs, f)
        },
        Expr::DynamicGet { expr, key } => match eval(expr, schema, row, f) {
            Ok(v) => extract(&v, key.as_str()),
            Err(e) => Err(e),
        },
    }
}

} // verus!
