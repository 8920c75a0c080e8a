//! What holds of expressions: integer arithmetic and order, three-valued logic,
//! conversions, builtins, and what a filter keeps.

use super::eval::{
    binary, called, converted, eval_int_arith, extracted, first_present, negated, rank_text, value,
    Rank,
};
use super::float::{
    float_abs, float_eq, float_lt, is_float_eq, is_float_lt, is_nan, nan, FloatAsk, FloatReply,
    Floats,
};
use super::infer::{arith_type, inferred, nullable};
use super::kernels::{flipped, float_compare, keeps};
use super::{BinaryOp, Expr};
use crate::model::{column, lemma_column, DataType, Dyn, ErrorCode, Fault, Field, Scalar, Val};
use crate::model::SparrowError;
use crate::text::{decimal, digits_value, lowered};
use vstd::prelude::*;
use vstd::string::*;

verus! {

/// The value of the operator on two integers is the sum, the difference, the
/// product of the integers, or their quotient towards zero.
pub open spec fn exact(op: BinaryOp, a: int, b: int, v: int) -> bool {
    match op {
        BinaryOp::Add => v == a + b,
        BinaryOp::Sub => v == a - b,
        BinaryOp::Mul => v == a * b,
        BinaryOp::Div => {
            let m = a - b * v;
            &&& -b < m < b || b < m < -b
            &&& m == 0 || (m < 0) == (a < 0)
        },
        _ => false,
    }
}

proof fn lemma_quotient(a: int, b: int)
    requires
        b != 0,
    ensures
        exact(BinaryOp::Div, a, b, super::eval::quotient(a, b)),
{
    let p = if a < 0 {
        -a
    } else {
        a
    };
    let q = if b < 0 {
        -b
    } else {
        b
    };
    let d = p / q;
    assert(p == q * d + p % q && 0 <= p % q < q) by {
        vstd::arithmetic::div_mod::lemma_fundamental_div_mod(p, q);
    }
    let v = super::eval::quotient(a, b);
    assert(b * v == if a < 0 {
        -(q * d)
    } else {
        q * d
    }) by (nonlinear_arith)
        requires
            q == (if b < 0 {
                -b
            } else {
                b
            }),
            v == (if (a < 0) == (b < 0) {
                d
            } else {
                -d
            }),
    ;
}

/// Signed arithmetic is exact: the result is that of the integers, towards zero
/// for a division. It is an overflow where that does not fit 64 bits, and NULL
/// for a division by zero.
pub proof fn law_signed_arithmetic_is_exact(
    op: BinaryOp,
    a: i64,
    b: i64,
    r: Result<Scalar, SparrowError>,
)
    requires
        call_ensures(eval_int_arith, (op, a, b), r),
    ensures
        op == BinaryOp::Add ==> if i64::MIN <= a + b <= i64::MAX {
            r == Ok::<Scalar, SparrowError>(Scalar::Int64((a + b) as i64))
        } else {
            r is Err && r->Err_0.code == ErrorCode::IntegerOverflow
        },
        op == BinaryOp::Sub ==> if i64::MIN <= a - b <= i64::MAX {
            r == Ok::<Scalar, SparrowError>(Scalar::Int64((a - b) as i64))
        } else {
            r is Err && r->Err_0.code == ErrorCode::IntegerOverflow
        },
        op == BinaryOp::Mul ==> if i64::MIN <= a * b <= i64::MAX {
            r == Ok::<Scalar, SparrowError>(Scalar::Int64((a * b) as i64))
        } else {
            r is Err && r->Err_0.code == ErrorCode::IntegerOverflow
        },
        op == BinaryOp::Div && b == 0 ==> r == Ok::<Scalar, SparrowError>(Scalar::Null),
        op == BinaryOp::Div && b != 0 ==> if a == i64::MIN && b == -1 {
            r is Err && r->Err_0.code == ErrorCode::IntegerOverflow
        } else {
            &&& r is Ok
            &&& r->Ok_0 is Int64
            &&& ({
                let m = a - b * r->Ok_0->Int64_0;
                &&& (if m < 0 { -m } else { m }) < (if b < 0 { -b as int } else { b as int })
                &&& m == 0 || (m < 0) == (a < 0)
            })
        },
{
    if op == BinaryOp::Div && b != 0 {
        lemma_quotient(a as int, b as int);
        let v = super::eval::quotient(a as int, b as int);
        lemma_quotient_fits(a as int, b as int, v);
    }
}

proof fn lemma_quotient_fits(a: int, b: int, v: int)
    requires
        i64::MIN <= a <= i64::MAX,
        b != 0,
        exact(BinaryOp::Div, a, b, v),
    ensures
        (i64::MIN <= v <= i64::MAX) <==> !(a == i64::MIN && b == -1),
        a >= 0 && b >= 0 ==> 0 <= v <= a,
{
    let m = a - b * v;
    assert((i64::MIN <= v <= i64::MAX) <==> !(a == i64::MIN && b == -1)) by (nonlinear_arith)
        requires
            i64::MIN <= a <= i64::MAX,
            b != 0,
            m == a - b * v,
            -b < m < b || b < m < -b,
            m == 0 || (m < 0) == (a < 0),
    ;
    assert(a >= 0 && b >= 0 ==> 0 <= v <= a) by (nonlinear_arith)
        requires
            b != 0,
            m == a - b * v,
            -b < m < b || b < m < -b,
            m == 0 || (m < 0) == (a < 0),
    ;
}

/// The operator computes on two values as on their integers: exactly, with an
/// error where the result does not fit the type and NULL for a division by zero.
/// An unsigned and a signed integer are computed on as signed ones.
pub proof fn law_integer_arithmetic(op: BinaryOp, x: Val, y: Val, a: int, b: int, g: Floats)
    requires
        op == BinaryOp::Add || op == BinaryOp::Sub || op == BinaryOp::Mul || op == BinaryOp::Div,
        (x matches Val::Int64(i) && i == a) || (x matches Val::UInt64(u) && u == a),
        (y matches Val::Int64(i) && i == b) || (y matches Val::UInt64(u) && u == b),
        !(x is UInt64 && y is UInt64) ==> a <= i64::MAX && b <= i64::MAX,
    ensures
        op == BinaryOp::Div && b == 0 ==> binary(op, x, y, g) == Ok::<Val, Fault>(Val::Null),
        !(op == BinaryOp::Div && b == 0) ==> match binary(op, x, y, g) {
            Ok(Val::Int64(v)) => !(x is UInt64 && y is UInt64) && exact(op, a, b, v as int),
            Ok(Val::UInt64(v)) => x is UInt64 && y is UInt64 && exact(op, a, b, v as int),
            Ok(_) => false,
            Err(f) => f.code == ErrorCode::IntegerOverflow && forall|v: int|
                #[trigger] exact(op, a, b, v) ==> if x is UInt64 && y is UInt64 {
                    !(0 <= v <= u64::MAX)
                } else {
                    !(i64::MIN <= v <= i64::MAX)
                },
        },
{
    if op == BinaryOp::Div && b != 0 {
        lemma_quotient(a, b);
        let q = super::eval::quotient(a, b);
        assert forall|v: int| #[trigger] exact(op, a, b, v) implies v == q by {
            lemma_quotient_is_one(a, b, v, q);
        }
    }
}

proof fn lemma_quotient_is_one(a: int, b: int, v: int, w: int)
    requires
        b != 0,
        exact(BinaryOp::Div, a, b, v),
        exact(BinaryOp::Div, a, b, w),
    ensures
        v == w,
{
    let m = a - b * v;
    let n = a - b * w;
    assert(v == w) by (nonlinear_arith)
        requires
            b != 0,
            m == a - b * v,
            n == a - b * w,
            -b < m < b || b < m < -b,
            -b < n < b || b < n < -b,
            m == 0 || (m < 0) == (a < 0),
            n == 0 || (n < 0) == (a < 0),
    ;
}

/// Integers are compared by value, whichever of the two types they have; a
/// negative number is not ordered against an unsigned one.
pub proof fn law_integers_are_compared_by_value(x: Val, y: Val, a: int, b: int, g: Floats)
    requires
        (x matches Val::Int64(i) && i == a) || (x matches Val::UInt64(u) && u == a),
        (y matches Val::Int64(i) && i == b) || (y matches Val::UInt64(u) && u == b),
    ensures
        binary(BinaryOp::Eq, x, y, g) == Ok::<Val, Fault>(Val::Bool(a == b)),
        binary(BinaryOp::NotEq, x, y, g) == Ok::<Val, Fault>(Val::Bool(a != b)),
        (x is Int64 <==> y is Int64) || (a >= 0 && b >= 0) ==> {
            &&& binary(BinaryOp::Lt, x, y, g) == Ok::<Val, Fault>(Val::Bool(a < b))
            &&& binary(BinaryOp::Lte, x, y, g) == Ok::<Val, Fault>(Val::Bool(a <= b))
            &&& binary(BinaryOp::Gt, x, y, g) == Ok::<Val, Fault>(Val::Bool(a > b))
            &&& binary(BinaryOp::Gte, x, y, g) == Ok::<Val, Fault>(Val::Bool(a >= b))
        },
        !(x is Int64 <==> y is Int64) && (a < 0 || b < 0) ==> binary(BinaryOp::Lt, x, y, g) is Err,
{
}

/// Moments are compared as the microseconds that they are, with each other and
/// with signed integers.
pub proof fn law_moments_are_compared_by_value(a: i64, b: i64, g: Floats)
    ensures
        ({
            let (s, t, i) = (
                Val::TimestampMicrosUTC(a),
                Val::TimestampMicrosUTC(b),
                Val::Int64(b),
            );
            &&& binary(BinaryOp::Lt, s, t, g) == Ok::<Val, Fault>(Val::Bool(a < b))
            &&& binary(BinaryOp::Lte, s, t, g) == Ok::<Val, Fault>(Val::Bool(a <= b))
            &&& binary(BinaryOp::Gt, s, t, g) == Ok::<Val, Fault>(Val::Bool(a > b))
            &&& binary(BinaryOp::Gte, s, t, g) == Ok::<Val, Fault>(Val::Bool(a >= b))
            &&& binary(BinaryOp::Eq, s, t, g) == Ok::<Val, Fault>(Val::Bool(a == b))
            &&& binary(BinaryOp::Lt, s, i, g) == Ok::<Val, Fault>(Val::Bool(a < b))
            &&& binary(BinaryOp::Gt, i, s, g) == Ok::<Val, Fault>(Val::Bool(b > a))
        }),
{
}

/// One text comes before another where it is its beginning, or where it has the
/// smaller character at the first place at which they differ.
pub proof fn law_texts_are_ordered_by_their_first_difference(a: Seq<char>, b: Seq<char>, k: int)
    requires
        0 <= k <= a.len(),
        k <= b.len(),
        a.take(k) == b.take(k),
        k < a.len() && k < b.len() ==> a[k] != b[k],
    ensures
        rank_text(a, b) == if k == a.len() && k == b.len() {
            Rank::Equal
        } else if k == a.len() {
            Rank::Less
        } else if k == b.len() {
            Rank::Greater
        } else if a[k] < b[k] {
            Rank::Less
        } else {
            Rank::Greater
        },
    decreases k,
{
    if k > 0 {
        assert(a.take(k)[0] == a[0] && b.take(k)[0] == b[0]);
        assert(a.skip(1).take(k - 1) =~= a.take(k).skip(1));
        assert(b.skip(1).take(k - 1) =~= b.take(k).skip(1));
        law_texts_are_ordered_by_their_first_difference(a.skip(1), b.skip(1), k - 1);
    }
}

/// The order of texts decides their comparison; they are equal where they are
/// the same text.
pub proof fn law_texts_are_compared(a: Seq<char>, b: Seq<char>, g: Floats)
    ensures
        ({
            let (x, y) = (Val::Utf8(a), Val::Utf8(b));
            &&& binary(BinaryOp::Eq, x, y, g) == Ok::<Val, Fault>(Val::Bool(a == b))
            &&& binary(BinaryOp::NotEq, x, y, g) == Ok::<Val, Fault>(Val::Bool(a != b))
            &&& binary(BinaryOp::Lt, x, y, g) == Ok::<Val, Fault>(
                Val::Bool(rank_text(a, b) == Rank::Less),
            )
            &&& binary(BinaryOp::Gt, x, y, g) == Ok::<Val, Fault>(
                Val::Bool(rank_text(a, b) == Rank::Greater),
            )
            &&& binary(BinaryOp::Lte, x, y, g) == Ok::<Val, Fault>(
                Val::Bool(rank_text(a, b) != Rank::Greater),
            )
            &&& binary(BinaryOp::Gte, x, y, g) == Ok::<Val, Fault>(
                Val::Bool(rank_text(a, b) != Rank::Less),
            )
        }),
{
}

/// NULL on either side makes arithmetic and comparison NULL.
pub proof fn law_null_is_contagious(op: BinaryOp, a: Val, b: Val, g: Floats)
    requires
        a is Null || b is Null,
        op != BinaryOp::And && op != BinaryOp::Or,
    ensures
        binary(op, a, b, g) == Ok::<Val, Fault>(Val::Null),
{
}

/// A truth value, or unknown.
pub open spec fn truth_value(v: Val) -> bool {
    v is Bool || v is Null
}

/// Three-valued logic: false decides AND and true decides OR whatever stands on
/// the other side; two known values give what logic gives; else it is unknown.
/// AND and OR are each other's dual under NOT.
pub proof fn law_logic_is_three_valued(a: Val, b: Val, g: Floats)
    requires
        truth_value(a),
        truth_value(b),
    ensures
        ({
            let and = binary(BinaryOp::And, a, b, g);
            let or = binary(BinaryOp::Or, a, b, g);
            let f = Val::Bool(false);
            let t = Val::Bool(true);
            &&& and is Ok && or is Ok
            &&& and->Ok_0 == f <==> a == f || b == f
            &&& and->Ok_0 == t <==> a == t && b == t
            &&& or->Ok_0 == t <==> a == t || b == t
            &&& or->Ok_0 == f <==> a == f && b == f
            &&& truth_value(and->Ok_0) && truth_value(or->Ok_0)
            &&& negated(and->Ok_0) == binary(
                BinaryOp::Or,
                negated(a)->Ok_0,
                negated(b)->Ok_0,
                g,
            )
            &&& negated(a) is Ok
            &&& negated(a)->Ok_0 == t <==> a == f
            &&& negated(a)->Ok_0 == f <==> a == t
        }),
{
}

/// What is no truth value is refused by AND, OR and NOT.
pub proof fn law_logic_takes_truth_values(a: Val, b: Val, g: Floats)
    requires
        !truth_value(a),
    ensures
        binary(BinaryOp::And, a, b, g) is Err,
        binary(BinaryOp::And, b, a, g) is Err,
        binary(BinaryOp::Or, a, b, g) is Err,
        binary(BinaryOp::Or, b, a, g) is Err,
        negated(a) is Err,
        binary(BinaryOp::And, a, b, g)->Err_0.code == ErrorCode::TypeMismatch,
        negated(a)->Err_0.code == ErrorCode::TypeMismatch,
{
}

/// What an expression is made of decides its value: a column is the cell of the
/// first field of that name, a literal is itself, an operator is applied to the
/// values of its sides in their order, and a test for NULL says whether the
/// value is NULL.
pub proof fn law_an_expression_has_the_value_of_its_parts(
    left: Expr,
    right: Expr,
    op: BinaryOp,
    fields: Seq<Field>,
    row: Seq<Val>,
    g: Floats,
)
    ensures
        ({
            let a = value(left, fields, row, g);
            let b = value(right, fields, row, g);
            let r = value(
                Expr::Binary { op, left: Box::new(left), right: Box::new(right) },
                fields,
                row,
                g,
            );
            &&& a is Ok && b is Ok ==> r == binary(op, a->Ok_0, b->Ok_0, g)
            &&& a is Err ==> r == a
            &&& a is Ok && b is Err ==> r == b
            &&& a is Ok ==> {
                &&& value(Expr::IsNull(Box::new(left)), fields, row, g) == Ok::<Val, Fault>(
                    Val::Bool(a->Ok_0 is Null),
                )
                &&& value(Expr::IsNotNull(Box::new(left)), fields, row, g) == Ok::<Val, Fault>(
                    Val::Bool(!(a->Ok_0 is Null)),
                )
                &&& value(Expr::Not(Box::new(left)), fields, row, g) == negated(a->Ok_0)
            }
            &&& left is Literal ==> a == Ok::<Val, Fault>(left->Literal_0@)
        }),
{
}

/// A column is read by its name: the first field that bears it decides which
/// cell. A row that is too short reads as NULL, and an unknown name is refused.
pub proof fn law_a_column_is_found_by_name(
    e: Expr,
    fields: Seq<Field>,
    row: Seq<Val>,
    g: Floats,
    i: int,
)
    requires
        e is Column,
    ensures
        0 <= i < fields.len() && fields[i].name@ == e->Column_name@ && (forall|j: int|
            0 <= j < i ==> (#[trigger] fields[j]).name@ != e->Column_name@) ==> value(
            e,
            fields,
            row,
            g,
        ) == Ok::<Val, Fault>(
            if i < row.len() {
                row[i]
            } else {
                Val::Null
            },
        ),
        (forall|j: int| 0 <= j < fields.len() ==> (#[trigger] fields[j]).name@ != e->Column_name@)
            ==> value(e, fields, row, g) is Err && value(e, fields, row, g)->Err_0.code
            == ErrorCode::InvalidArgument,
{
    lemma_column(fields, e->Column_name@);
    lemma_column_is_first(fields, e->Column_name@);
}

proof fn lemma_column_is_first(fields: Seq<Field>, name: Seq<char>)
    ensures
        column(fields, name) matches Some(i) ==> 0 <= i < fields.len() && forall|j: int|
            0 <= j < i ==> (#[trigger] fields[j]).name@ != name,
    decreases fields.len(),
{
    if fields.len() > 0 {
        let front = fields.drop_last();
        lemma_column_is_first(front, name);
        lemma_column(front, name);
        match column(front, name) {
            Some(i) => {
                assert forall|j: int| 0 <= j < i implies (#[trigger] fields[j]).name@ != name by {
                    assert(front[j] == fields[j]);
                }
            },
            None => {
                assert forall|j: int| 0 <= j < fields.len() - 1 implies (#[trigger] fields[j]).name@
                    != name by {
                    assert(front[j] == fields[j]);
                }
            },
        }
    }
}

/// TRY_CAST gives what CAST gives, and NULL where CAST fails.
pub proof fn law_try_cast_fails_to_null(v: Val, t: DataType, g: Floats)
    ensures
        converted(v, t, true, g) is Ok,
        converted(v, t, false, g) is Ok ==> converted(v, t, true, g) == converted(v, t, false, g),
        converted(v, t, false, g) is Err ==> {
            &&& converted(v, t, true, g) == Ok::<Val, Fault>(Val::Null)
            &&& converted(v, t, false, g)->Err_0.code == ErrorCode::TypeMismatch
        },
{
}

proof fn lemma_digits_of_decimal(n: nat, max: nat)
    requires
        n <= max,
    ensures
        digits_value(decimal(n), max) == Ok::<nat, crate::text::IntError>(n),
        decimal(n).len() > 0,
        '0' <= decimal(n)[0] <= '9',
    decreases n,
{
    reveal_with_fuel(decimal, 2);
    if n >= 10 {
        lemma_digits_of_decimal(n / 10, max);
        assert(decimal(n).drop_last() =~= decimal(n / 10));
        assert(decimal(n)[0] == decimal(n / 10)[0]);
    } else {
        let s = decimal(n);
        assert(s.drop_last().len() == 0);
        assert(digits_value(s.drop_last(), max) == Ok::<nat, crate::text::IntError>(0));
    }
}

/// An integer keeps its value when it changes its type: to text and back, and
/// between the signed and the unsigned type where both can hold it; else the
/// conversion fails.
pub proof fn law_conversions_keep_the_integer(v: i64, u: u64, g: Floats)
    ensures
        ({
            let text = converted(Val::Int64(v), DataType::Utf8, false, g);
            &&& text is Ok
            &&& text->Ok_0 is Utf8
            &&& converted(text->Ok_0, DataType::Int64, false, g) == Ok::<Val, Fault>(Val::Int64(v))
            &&& v >= 0 ==> text->Ok_0->Utf8_0 == decimal(v as nat)
            &&& v < 0 ==> text->Ok_0->Utf8_0 == seq!['-'] + decimal((-v) as nat)
        }),
        converted(Val::Int64(v), DataType::Int64, false, g) == Ok::<Val, Fault>(Val::Int64(v)),
        converted(Val::UInt64(u), DataType::UInt64, false, g) == Ok::<Val, Fault>(Val::UInt64(u)),
        v >= 0 ==> converted(Val::Int64(v), DataType::UInt64, false, g) == Ok::<Val, Fault>(
            Val::UInt64(v as u64),
        ),
        v < 0 ==> converted(Val::Int64(v), DataType::UInt64, false, g) is Err,
        u <= i64::MAX ==> converted(Val::UInt64(u), DataType::Int64, false, g) == Ok::<Val, Fault>(
            Val::Int64(u as i64),
        ),
        u > i64::MAX ==> converted(Val::UInt64(u), DataType::Int64, false, g) is Err,
        converted(Val::Null, DataType::Int64, false, g) == Ok::<Val, Fault>(Val::Null),
{
    reveal_strlit("-");
    assert("-"@ =~= seq!['-']);
    if v < 0 {
        lemma_digits_of_decimal((-v) as nat, 0x8000_0000_0000_0000);
        let t = "-"@ + decimal((-v) as nat);
        assert(t.skip(1) =~= decimal((-v) as nat));
        assert(t[0] == '-');
    } else {
        lemma_digits_of_decimal(v as nat, 0x7fff_ffff_ffff_ffff);
    }
}

/// A value that already has the type is kept as it is, and NULL is NULL in every
/// type.
pub proof fn law_a_conversion_to_its_own_type_changes_nothing(v: Val, t: DataType, g: Floats)
    ensures
        v is Null ==> converted(v, t, false, g) == Ok::<Val, Fault>(Val::Null),
        v is Bool && t == DataType::Bool || v is Int64 && t == DataType::Int64 || v is UInt64 && t
            == DataType::UInt64 || v is Float64 && t == DataType::Float64 || v is Utf8 && t
            == DataType::Utf8 || v is Dynamic && t == DataType::Dynamic && !(v->Dynamic_0 is Null)
            ==> converted(v, t, false, g) == Ok::<Val, Fault>(v),
{
}

/// A value in dynamic form is what it was.
pub proof fn law_dynamic_form_keeps_the_value(i: i64, u: u64, b: bool, s: Seq<char>, g: Floats)
    ensures
        converted(Val::Int64(i), DataType::Dynamic, false, g) == Ok::<Val, Fault>(
            Val::Dynamic(Dyn::Int64(i)),
        ),
        converted(Val::UInt64(u), DataType::Dynamic, false, g) == Ok::<Val, Fault>(
            Val::Dynamic(Dyn::UInt64(u)),
        ),
        converted(Val::Bool(b), DataType::Dynamic, false, g) == Ok::<Val, Fault>(
            Val::Dynamic(Dyn::Bool(b)),
        ),
        converted(Val::Utf8(s), DataType::Dynamic, false, g) == Ok::<Val, Fault>(
            Val::Dynamic(Dyn::Utf8(s)),
        ),
        converted(Val::TimestampMicrosUTC(i), DataType::Dynamic, false, g) == Ok::<Val, Fault>(
            Val::Dynamic(Dyn::Int64(i)),
        ),
        converted(Val::Dynamic(Dyn::Int64(i)), DataType::Int64, false, g) == Ok::<Val, Fault>(
            Val::Int64(i),
        ),
        converted(Val::Dynamic(Dyn::Utf8(s)), DataType::Utf8, false, g) == Ok::<Val, Fault>(
            Val::Utf8(s),
        ),
{
}

/// Floating point is asked for exactly what is computed, the sides in their
/// order; an integer is converted first. A division by either zero is NULL.
pub proof fn law_floating_point_is_asked_in_order(a: u64, b: u64, i: i64, g: Floats)
    ensures
        ({
            let (x, y) = (Val::Float64(a), Val::Float64(b));
            let zero = b == 0 || b == 0x8000_0000_0000_0000;
            &&& g(FloatAsk::Add(a, b)) matches FloatReply::Bits(s) ==> binary(
                BinaryOp::Add,
                x,
                y,
                g,
            ) == Ok::<Val, Fault>(Val::Float64(s))
            &&& g(FloatAsk::Sub(a, b)) matches FloatReply::Bits(s) ==> binary(
                BinaryOp::Sub,
                x,
                y,
                g,
            ) == Ok::<Val, Fault>(Val::Float64(s))
            &&& g(FloatAsk::Mul(a, b)) matches FloatReply::Bits(s) ==> binary(
                BinaryOp::Mul,
                x,
                y,
                g,
            ) == Ok::<Val, Fault>(Val::Float64(s))
            &&& zero ==> binary(BinaryOp::Div, x, y, g) == Ok::<Val, Fault>(Val::Null)
            &&& !zero ==> (g(FloatAsk::Div(a, b)) matches FloatReply::Bits(s) ==> binary(
                BinaryOp::Div,
                x,
                y,
                g,
            ) == Ok::<Val, Fault>(Val::Float64(s)))
            &&& g(FloatAsk::FromInt(i)) is Bits && g(
                FloatAsk::Sub(g(FloatAsk::FromInt(i))->Bits_0, b),
            ) is Bits ==> {
                let c = g(FloatAsk::FromInt(i))->Bits_0;
                let s = g(FloatAsk::Sub(c, b))->Bits_0;
                binary(BinaryOp::Sub, Val::Int64(i), y, g) == Ok::<Val, Fault>(Val::Float64(s))
            }
        }),
{
}

/// Bits stand for no number where the exponent is all ones and the fraction is
/// not zero. Numbers of one sign are ordered by their bits, negative ones the
/// other way round; a negative number is below a positive one; the zeros are
/// equal, and what is no number is neither below nor equal to anything.
pub proof fn law_floating_point_order(a: u64, b: u64, lt: bool, eq: bool, no: bool)
    requires
        call_ensures(is_float_lt, (a, b), lt),
        call_ensures(is_float_eq, (a, b), eq),
        call_ensures(is_nan, (a,), no),
    ensures
        no <==> (a / 0x10_0000_0000_0000) % 2048 == 2047 && a % 0x10_0000_0000_0000 != 0,
        no || nan(b) ==> !lt && !eq,
        !no && !nan(b) ==> {
            let n: u64 = 0x8000_0000_0000_0000;
            &&& a < n && b < n ==> (lt <==> a < b) && (eq <==> a == b)
            &&& a >= n && b >= n ==> (lt <==> b < a) && (eq <==> a == b)
            &&& a > n && b < n ==> lt && !eq
            &&& a == n && b < n ==> (lt <==> b > 0) && (eq <==> b == 0)
            &&& a < n && b >= n ==> !lt && (eq <==> a == 0 && b == n)
        },
{
    assert(a == 0x10_0000_0000_0000 * (a / 0x10_0000_0000_0000) + a % 0x10_0000_0000_0000);
}

/// The absolute value has the bits without the sign.
pub proof fn law_absolute_bits(b: u64, r: u64)
    requires
        call_ensures(float_abs, (b,), r),
    ensures
        b < 0x8000_0000_0000_0000 ==> r == b,
        b >= 0x8000_0000_0000_0000 ==> r == b - 0x8000_0000_0000_0000,
{
}

/// The names of the builtins are told apart.
proof fn lemma_builtins_differ()
    ensures
        "abs"@.len() == 3 && "lower"@.len() == 5 && "upper"@.len() == 5 && "length"@.len() == 6
            && "char_length"@.len() == 11 && "coalesce"@.len() == 8 && "nullif"@.len() == 6
            && "greatest"@.len() == 8 && "least"@.len() == 5,
        "lower"@[0] == 'l' && "lower"@[1] == 'o' && "upper"@[0] == 'u' && "least"@[0] == 'l'
            && "least"@[1] == 'e' && "length"@[0] == 'l' && "nullif"@[0] == 'n' && "coalesce"@[0]
            == 'c' && "greatest"@[0] == 'g',
{
    reveal_strlit("abs");
    reveal_strlit("lower");
    reveal_strlit("upper");
    reveal_strlit("length");
    reveal_strlit("char_length");
    reveal_strlit("coalesce");
    reveal_strlit("nullif");
    reveal_strlit("greatest");
    reveal_strlit("least");
}

/// The absolute value of an integer is not negative and is the integer or its
/// opposite; that of the smallest does not fit.
pub proof fn law_abs(name: Seq<char>, v: i64, g: Floats)
    requires
        lowered(name) == "abs"@,
    ensures
        v == i64::MIN ==> called(name, seq![Val::Int64(v)], g) is Err && called(
            name,
            seq![Val::Int64(v)],
            g,
        )->Err_0.code == ErrorCode::IntegerOverflow,
        v != i64::MIN ==> match called(name, seq![Val::Int64(v)], g) {
            Ok(Val::Int64(w)) => w >= 0 && (w == v || w == -v),
            _ => false,
        },
        called(name, seq![Val::Null], g) == Ok::<Val, Fault>(Val::Null),
{
}

/// LOWER and UPPER change the letters `A` to `Z` and `a` to `z` into each other,
/// one for one, and leave every other character as it is. LENGTH counts
/// characters.
pub proof fn law_letters_change_case(s: Seq<char>, i: int, g: Floats)
    requires
        0 <= i < s.len() <= i64::MAX,
    ensures
        ({
            let low = called("lower"@, seq![Val::Utf8(s)], g);
            let up = called("upper"@, seq![Val::Utf8(s)], g);
            &&& low is Ok && low->Ok_0 is Utf8 && low->Ok_0->Utf8_0.len() == s.len()
            &&& up is Ok && up->Ok_0 is Utf8 && up->Ok_0->Utf8_0.len() == s.len()
            &&& 'A' <= s[i] <= 'Z' ==> low->Ok_0->Utf8_0[i] as int == s[i] as int + 32
                && up->Ok_0->Utf8_0[i] == s[i]
            &&& 'a' <= s[i] <= 'z' ==> up->Ok_0->Utf8_0[i] as int == s[i] as int - 32
                && low->Ok_0->Utf8_0[i] == s[i]
            &&& !('A' <= s[i] <= 'Z') && !('a' <= s[i] <= 'z') ==> low->Ok_0->Utf8_0[i] == s[i]
                && up->Ok_0->Utf8_0[i] == s[i]
            &&& called("length"@, seq![Val::Utf8(s)], g) == Ok::<Val, Fault>(
                Val::Int64(s.len() as i64),
            )
            &&& called("char_length"@, seq![Val::Utf8(s)], g) == called(
                "length"@,
                seq![Val::Utf8(s)],
                g,
            )
        }),
{
    lemma_builtins_differ();
    lemma_lower_names();
}

/// The names of the builtins are in lower case.
proof fn lemma_lower_names()
    ensures
        lowered("lower"@) == "lower"@,
        lowered("upper"@) == "upper"@,
        lowered("length"@) == "length"@,
        lowered("char_length"@) == "char_length"@,
        lowered("coalesce"@) == "coalesce"@,
        lowered("nullif"@) == "nullif"@,
        lowered("greatest"@) == "greatest"@,
        lowered("least"@) == "least"@,
{
    reveal_strlit("lower");
    reveal_strlit("upper");
    reveal_strlit("length");
    reveal_strlit("char_length");
    reveal_strlit("coalesce");
    reveal_strlit("nullif");
    reveal_strlit("greatest");
    reveal_strlit("least");
    assert(lowered("lower"@) =~= "lower"@);
    assert(lowered("upper"@) =~= "upper"@);
    assert(lowered("length"@) =~= "length"@);
    assert(lowered("char_length"@) =~= "char_length"@);
    assert(lowered("coalesce"@) =~= "coalesce"@);
    assert(lowered("nullif"@) =~= "nullif"@);
    assert(lowered("greatest"@) =~= "greatest"@);
    assert(lowered("least"@) =~= "least"@);
}

/// COALESCE gives the first value that is not NULL, and NULL where all are.
pub proof fn law_coalesce_gives_the_first_present(vs: Seq<Val>, k: int, g: Floats)
    requires
        0 <= k <= vs.len(),
        vs.len() > 0,
        forall|i: int| 0 <= i < k ==> #[trigger] vs[i] is Null,
        k < vs.len() ==> !(vs[k] is Null),
    ensures
        called("coalesce"@, vs, g) == Ok::<Val, Fault>(
            if k < vs.len() {
                vs[k]
            } else {
                Val::Null
            },
        ),
{
    lemma_builtins_differ();
    lemma_lower_names();
    lemma_first_present_at(vs, k);
}

proof fn lemma_first_present_at(vs: Seq<Val>, k: int)
    requires
        0 <= k <= vs.len(),
        forall|i: int| 0 <= i < k ==> #[trigger] vs[i] is Null,
        k < vs.len() ==> !(vs[k] is Null),
    ensures
        first_present(vs) == if k < vs.len() {
            vs[k]
        } else {
            Val::Null
        },
    decreases k,
{
    if k > 0 {
        assert(vs[0] is Null);
        assert forall|i: int| 0 <= i < k - 1 implies #[trigger] vs.skip(1)[i] is Null by {
            assert(vs[i + 1] is Null);
        }
        lemma_first_present_at(vs.skip(1), k - 1);
    }
}

/// NULLIF gives NULL where its two values are equal, and the first of them
/// otherwise.
pub proof fn law_nullif(a: i64, b: i64, s: Seq<char>, t: Seq<char>, g: Floats)
    ensures
        called("nullif"@, seq![Val::Int64(a), Val::Int64(b)], g) == Ok::<Val, Fault>(
            if a == b {
                Val::Null
            } else {
                Val::Int64(a)
            },
        ),
        called("nullif"@, seq![Val::Utf8(s), Val::Utf8(t)], g) == Ok::<Val, Fault>(
            if s == t {
                Val::Null
            } else {
                Val::Utf8(s)
            },
        ),
{
    lemma_builtins_differ();
    lemma_lower_names();
}

/// The largest and the smallest of integers: one of them, and no other is above
/// or below it. NULLs do not count.
pub proof fn law_extremes_of_integers(vs: Seq<Val>, greatest: bool, g: Floats)
    requires
        vs.len() > 0,
        forall|i: int| 0 <= i < vs.len() ==> #[trigger] vs[i] is Int64 || vs[i] is Null,
    ensures
        match called(if greatest { "greatest"@ } else { "least"@ }, vs, g) {
            Ok(Val::Int64(m)) => {
                &&& vs.contains(Val::Int64(m))
                &&& forall|i: int|
                    0 <= i < vs.len() && #[trigger] vs[i] is Int64 ==> if greatest {
                        vs[i]->Int64_0 <= m
                    } else {
                        vs[i]->Int64_0 >= m
                    }
            },
            Ok(Val::Null) => forall|i: int| 0 <= i < vs.len() ==> #[trigger] vs[i] is Null,
            _ => false,
        },
{
    lemma_builtins_differ();
    lemma_lower_names();
    lemma_extreme_of_integers(vs, greatest, g);
}

proof fn lemma_extreme_of_integers(vs: Seq<Val>, greatest: bool, g: Floats)
    requires
        forall|i: int| 0 <= i < vs.len() ==> #[trigger] vs[i] is Int64 || vs[i] is Null,
    ensures
        match super::eval::extreme(vs, greatest, g) {
            Ok(Some(Val::Int64(m))) => {
                &&& vs.contains(Val::Int64(m))
                &&& forall|i: int|
                    0 <= i < vs.len() && #[trigger] vs[i] is Int64 ==> if greatest {
                        vs[i]->Int64_0 <= m
                    } else {
                        vs[i]->Int64_0 >= m
                    }
            },
            Ok(None) => forall|i: int| 0 <= i < vs.len() ==> #[trigger] vs[i] is Null,
            _ => false,
        },
    decreases vs.len(),
{
    if vs.len() > 0 {
        let front = vs.drop_last();
        let last = vs.len() - 1;
        assert forall|i: int| 0 <= i < front.len() implies #[trigger] front[i] is Int64
            || front[i] is Null by {
            assert(vs[i] is Int64 || vs[i] is Null);
        }
        lemma_extreme_of_integers(front, greatest, g);
        assert(vs[last] is Int64 || vs[last] is Null);
        assert forall|i: int| 0 <= i < last implies #[trigger] vs[i] == front[i] by {}
        match super::eval::extreme(front, greatest, g) {
            Ok(Some(Val::Int64(m))) => {
                let i = choose|i: int| 0 <= i < front.len() && front[i] == Val::Int64(m);
                assert(vs[i] == Val::Int64(m));
            },
            _ => {},
        }
        if vs[last] is Int64 {
            assert(vs.contains(vs[last]));
        }
    }
}

/// The member of an object is the first one under that key, as a value of its
/// own type; there is none of anything else, which reads as NULL.
pub proof fn law_a_member_is_found_by_key(
    m: Seq<(Seq<char>, Dyn)>,
    key: Seq<char>,
    i: int,
)
    requires
        0 <= i <= m.len(),
        forall|j: int| 0 <= j < i ==> (#[trigger] m[j]).0 != key,
        i < m.len() ==> m[i].0 == key,
    ensures
        ({
            let r = extracted(Val::Dynamic(Dyn::Object(m)), key);
            &&& i == m.len() ==> r == Ok::<Val, Fault>(Val::Null)
            &&& i < m.len() ==> r == Ok::<Val, Fault>(
                match m[i].1 {
                    Dyn::Null => Val::Null,
                    Dyn::Bool(x) => Val::Bool(x),
                    Dyn::Int64(x) => Val::Int64(x),
                    Dyn::UInt64(x) => Val::UInt64(x),
                    Dyn::Float64(x) => Val::Float64(x),
                    Dyn::Utf8(x) => Val::Utf8(x),
                    Dyn::Bytes(x) => Val::Bytes(x),
                    Dyn::Array(x) => Val::Dynamic(Dyn::Array(x)),
                    Dyn::Object(x) => Val::Dynamic(Dyn::Object(x)),
                },
            )
        }),
        extracted(Val::Null, key) == Ok::<Val, Fault>(Val::Null),
        extracted(Val::Bool(true), key) is Err,
{
    lemma_first_member_at(m, key, i);
}

proof fn lemma_first_member_at(m: Seq<(Seq<char>, Dyn)>, key: Seq<char>, i: int)
    requires
        0 <= i <= m.len(),
        forall|j: int| 0 <= j < i ==> (#[trigger] m[j]).0 != key,
        i < m.len() ==> m[i].0 == key,
    ensures
        crate::model::first_member(m, key) == if i < m.len() {
            Some(m[i].1)
        } else {
            None
        },
    decreases i,
{
    if i > 0 {
        assert(m[0].0 != key);
        assert forall|j: int| 0 <= j < i - 1 implies (#[trigger] m.skip(1)[j]).0 != key by {
            assert(m[j + 1].0 != key);
        }
        lemma_first_member_at(m.skip(1), key, i - 1);
    }
}

/// A row is kept where the predicate is true, and dropped where it is false or
/// NULL; anything else is an error.
pub proof fn law_only_true_keeps_a_row(v: Result<Val, Fault>)
    ensures
        keeps(v) == Ok::<bool, Fault>(true) <==> v == Ok::<Val, Fault>(Val::Bool(true)),
        keeps(v) == Ok::<bool, Fault>(false) <==> v == Ok::<Val, Fault>(Val::Bool(false)) || v
            == Ok::<Val, Fault>(Val::Null),
        v is Err ==> keeps(v) is Err && keeps(v)->Err_0 == v->Err_0,
{
}

/// A comparison with its sides exchanged says the same.
pub proof fn law_exchanged_comparison_says_the_same(op: BinaryOp, a: u64, b: u64)
    requires
        op == BinaryOp::Lt || op == BinaryOp::Lte || op == BinaryOp::Gt || op == BinaryOp::Gte || op
            == BinaryOp::Eq || op == BinaryOp::NotEq,
    ensures
        float_compare(op, a, b) == float_compare(flipped(op), b, a),
        float_compare(BinaryOp::Lt, a, b) == float_lt(a, b),
        float_compare(BinaryOp::Eq, a, b) == float_eq(a, b),
        float_compare(BinaryOp::Lte, a, b) == (float_lt(a, b) || float_eq(a, b)),
        float_compare(BinaryOp::NotEq, a, b) == !float_eq(a, b),
{
}

/// The type of arithmetic: floating point where one side is, unsigned where both
/// sides are, signed for any other integers. Text, truth values and dynamic
/// values are refused.
pub proof fn law_types_of_arithmetic(a: DataType, b: DataType)
    ensures
        ({
            let whole = |t: DataType|
                t == DataType::Int64 || t == DataType::UInt64 || t == DataType::TimestampMicrosUTC;
            let number = |t: DataType| whole(t) || t == DataType::Float64;
            let r = arith_type(a, b);
            &&& number(a) && number(b) <==> r is Ok
            &&& number(a) && number(b) && (a == DataType::Float64 || b == DataType::Float64) ==> r
                == Ok::<DataType, Fault>(DataType::Float64)
            &&& a == DataType::UInt64 && b == DataType::UInt64 ==> r == Ok::<DataType, Fault>(
                DataType::UInt64,
            )
            &&& whole(a) && whole(b) && !(a == DataType::UInt64 && b == DataType::UInt64) ==> r == Ok::<
                DataType,
                Fault,
            >(DataType::Int64)
        }),
{
}

/// The type and nullability of an expression follow from its parts: a column has
/// those of its field, a comparison is a truth value, a test for NULL is never
/// NULL, and an operator other than division is nullable where a side is.
pub proof fn law_types_follow_from_the_parts(
    left: Expr,
    right: Expr,
    op: BinaryOp,
    fields: Seq<Field>,
    i: int,
)
    requires
        left is Column,
        0 <= i < fields.len(),
        fields[i].name@ == left->Column_name@,
        forall|j: int| 0 <= j < i ==> (#[trigger] fields[j]).name@ != left->Column_name@,
        inferred(right, fields) is Ok,
        nullable(right, fields) is Ok,
    ensures
        ({
            let both = Expr::Binary { op, left: Box::new(left), right: Box::new(right) };
            let r = nullable(right, fields)->Ok_0;
            &&& inferred(left, fields) == Ok::<DataType, Fault>(fields[i].data_type)
            &&& nullable(left, fields) == Ok::<bool, Fault>(fields[i].nullable)
            &&& op == BinaryOp::Add || op == BinaryOp::Sub || op == BinaryOp::Mul || op
                == BinaryOp::Div ==> inferred(both, fields) == arith_type(
                fields[i].data_type,
                inferred(right, fields)->Ok_0,
            )
            &&& op != BinaryOp::Add && op != BinaryOp::Sub && op != BinaryOp::Mul && op
                != BinaryOp::Div ==> inferred(both, fields) == Ok::<DataType, Fault>(DataType::Bool)
            &&& op != BinaryOp::Div ==> nullable(both, fields) == Ok::<bool, Fault>(
                fields[i].nullable || r,
            )
            &&& op == BinaryOp::Div ==> {
                &&& fields[i].nullable || r ==> nullable(both, fields) == Ok::<bool, Fault>(true)
                &&& right is Literal && right->Literal_0 is Int64 && right->Literal_0->Int64_0 != 0
                    ==> nullable(both, fields) == Ok::<bool, Fault>(fields[i].nullable)
                &&& !(right is Literal) ==> nullable(both, fields) == Ok::<bool, Fault>(true)
            }
            &&& inferred(Expr::IsNull(Box::new(left)), fields) == Ok::<DataType, Fault>(
                DataType::Bool,
            )
            &&& nullable(Expr::IsNull(Box::new(left)), fields) == Ok::<bool, Fault>(false)
            &&& nullable(Expr::IsNotNull(Box::new(left)), fields) == Ok::<bool, Fault>(false)
            &&& nullable(Expr::Not(Box::new(left)), fields) == Ok::<bool, Fault>(
                fields[i].nullable,
            )
        }),
{
    lemma_column(fields, left->Column_name@);
    lemma_column_is_first(fields, left->Column_name@);
}

/// Which calls may give NULL: `coalesce` only where all its arguments may,
/// `greatest` and `least` where one may, `nullif` always, and any other function
/// where its first argument may. A test for NULL never does, a cast where what is
/// cast may, and one that is tried always.
pub proof fn law_which_calls_may_give_null(
    name: String,
    args: Vec<Expr>,
    fields: Seq<Field>,
    e: Box<Expr>,
    ty: DataType,
)
    requires
        args@.len() == 2,
        nullable(args@[0], fields) is Ok,
        nullable(args@[1], fields) is Ok,
    ensures
        ({
            let c = nullable(Expr::Call { name, args }, fields);
            let a = nullable(args@[0], fields)->Ok_0;
            let b = nullable(args@[1], fields)->Ok_0;
            let n = crate::text::lowered(name@);
            &&& n == "coalesce"@ ==> c == Ok::<bool, Fault>(a && b)
            &&& n == "greatest"@ || n == "least"@ ==> c == Ok::<bool, Fault>(a || b)
            &&& n == "nullif"@ ==> c == Ok::<bool, Fault>(true)
            &&& n != "coalesce"@ && n != "greatest"@ && n != "least"@ && n != "nullif"@ ==> c
                == Ok::<bool, Fault>(a)
        }),
        nullable(Expr::IsNull(e), fields) == Ok::<bool, Fault>(false),
        nullable(Expr::IsNotNull(e), fields) == Ok::<bool, Fault>(false),
        nullable(Expr::Not(e), fields) == nullable(*e, fields),
        nullable(Expr::Cast { expr: e, target: ty }, fields) == nullable(*e, fields),
        nullable(Expr::TryCast { expr: e, target: ty }, fields) == Ok::<bool, Fault>(true),
{
    reveal_strlit("coalesce");
    reveal_strlit("greatest");
    reveal_strlit("least");
    reveal_strlit("nullif");
    assert("coalesce"@.len() == 8 && "greatest"@.len() == 8 && "least"@.len() == 5
        && "nullif"@.len() == 6);
    assert("coalesce"@[0] == 'c' && "greatest"@[0] == 'g');
    reveal_with_fuel(nullable, 2);
    let none = Seq::<Expr>::empty();
    let one = args@.drop_last();
    let a = nullable(args@[0], fields)->Ok_0;
    let b = nullable(args@[1], fields)->Ok_0;
    assert(one.drop_last() =~= none);
    assert(one.last() == args@[0] && args@.last() == args@[1]);
    assert(super::infer::all_nullable(none, fields) == Ok::<bool, Fault>(true));
    assert(super::infer::any_nullable(none, fields) == Ok::<bool, Fault>(false));
    assert(super::infer::all_nullable(one, fields) == Ok::<bool, Fault>(a));
    assert(super::infer::any_nullable(one, fields) == Ok::<bool, Fault>(a));
    assert(super::infer::all_nullable(args@, fields) == Ok::<bool, Fault>(a && b));
    assert(super::infer::any_nullable(args@, fields) == Ok::<bool, Fault>(a || b));
}

} // verus!
