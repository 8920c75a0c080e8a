//! Types and nullability of expressions, known before any row is seen.

use super::eval::{arith, arithmetic, extreme, first_present, unknown_column, value, values};
use super::float::{converts, float_abs, float_zero, Floats};
use super::{BinaryOp, Expr};
use crate::model::{
    column, err, fault, lemma_column, type_of, DataType, ErrorCode, Fault, Field, Scalar, Schema,
    SparrowError, Val,
};
use crate::text::{cat2, cat3, cat4, dec, decimal, lowered, same, to_lower};
use vstd::prelude::*;

verus! {

/// Whether values of the type can be numbers.
pub open spec fn numeric(t: DataType) -> bool {
    t == DataType::Int64 || t == DataType::UInt64 || t == DataType::Float64 || t
        == DataType::TimestampMicrosUTC
}

/// Whether values of the type are integers.
pub open spec fn intish(t: DataType) -> bool {
    t == DataType::Int64 || t == DataType::UInt64 || t == DataType::TimestampMicrosUTC
}

fn is_numeric(t: DataType) -> (r: bool)
    ensures
        r == numeric(t),
{
    match t {
        DataType::Int64 | DataType::UInt64 | DataType::Float64 | DataType::TimestampMicrosUTC => {
            true
        },
        _ => false,
    }
}

fn is_intish(t: DataType) -> (r: bool)
    ensures
        r == intish(t),
{
    match t {
        DataType::Int64 | DataType::UInt64 | DataType::TimestampMicrosUTC => true,
        _ => false,
    }
}

/// The fault for operands that are no numbers.
pub open spec fn not_numeric(a: DataType, b: DataType) -> Fault {
    fault(
        ErrorCode::TypeMismatch,
        "arithmetic expects numeric, got "@ + a.name() + " and "@ + b.name(),
    )
}

/// The type of arithmetic on operands of two types.
pub open spec fn arith_type(a: DataType, b: DataType) -> Result<DataType, Fault> {
    if a == DataType::Dynamic || b == DataType::Dynamic {
        Err(
            fault(
                ErrorCode::TypeMismatch,
                "dynamic arithmetic requires an explicit CAST/TRY_CAST"@,
            ),
        )
    } else if a == DataType::Float64 || b == DataType::Float64 {
        if numeric(a) && numeric(b) {
            Ok(DataType::Float64)
        } else {
            Err(not_numeric(a, b))
        }
    } else if a == DataType::UInt64 && b == DataType::UInt64 {
        Ok(DataType::UInt64)
    } else if intish(a) && intish(b) {
        Ok(DataType::Int64)
    } else {
        Err(not_numeric(a, b))
    }
}

fn infer_arith(a: DataType, b: DataType) -> (r: Result<DataType, SparrowError>)
    ensures
        crate::model::outcome(r) == arith_type(a, b),
{
    if a == DataType::Dynamic || b == DataType::Dynamic {
        return Err(
            err(ErrorCode::TypeMismatch, "dynamic arithmetic requires an explicit CAST/TRY_CAST"),
        );
    }
    if a == DataType::Float64 || b == DataType::Float64 {
        if is_numeric(a) && is_numeric(b) {
            return Ok(DataType::Float64);
        }
    } else if a == DataType::UInt64 && b == DataType::UInt64 {
        return Ok(DataType::UInt64);
    } else if is_intish(a) && is_intish(b) {
        return Ok(DataType::Int64);
    }
    Err(
        SparrowError::new(
            ErrorCode::TypeMismatch,
            cat4("arithmetic expects numeric, got ", a.as_str(), " and ", b.as_str()),
        ),
    )
}

/// Whether the builtin takes exactly one argument.
pub open spec fn unary_builtin(n: Seq<char>) -> bool {
    n == "abs"@ || n == "lower"@ || n == "upper"@ || n == "length"@ || n == "char_length"@
}

/// The type of an expression.
pub open spec fn inferred(e: Expr, fields: Seq<Field>) -> Result<DataType, Fault>
    decreases e,
{
    match e {
        Expr::Column { name } => match column(fields, name@) {
            Some(i) => Ok(fields[i].data_type),
            None => Err(unknown_column(name@)),
        },
        Expr::Literal(s) => Ok(type_of(s@)),
        Expr::Cast { expr, target } => match inferred(*expr, fields) {
            Ok(_) => Ok(target),
            Err(f) => Err(f),
        },
        Expr::TryCast { expr, target } => match inferred(*expr, fields) {
            Ok(_) => Ok(target),
            Err(f) => Err(f),
        },
        Expr::IsNull(_) => Ok(DataType::Bool),
        Expr::IsNotNull(_) => Ok(DataType::Bool),
        Expr::Not(_) => Ok(DataType::Bool),
        Expr::Binary { op, left, right } => match inferred(*left, fields) {
            Err(f) => Err(f),
            Ok(a) => match inferred(*right, fields) {
                Err(f) => Err(f),
                Ok(b) => if arithmetic(op) {
                    arith_type(a, b)
                } else {
                    Ok(DataType::Bool)
                },
            },
        },
        Expr::Call { name, args } => {
            let n = lowered(name@);
            let argc = args@.len();
            if unary_builtin(n) && argc != 1 {
                Err(
                    fault(
                        ErrorCode::InvalidArgument,
                        name@ + " requires 1 argument, got "@ + decimal(argc),
                    ),
                )
            } else if n == "coalesce"@ && argc == 0 {
                Err(fault(ErrorCode::InvalidArgument, "coalesce requires at least 1 argument"@))
            } else {
                match inferred_all(args@, fields) {
                    Some(f) => Err(f),
                    None => if n == "abs"@ {
                        inferred(args@[0], fields)
                    } else if n == "lower"@ || n == "upper"@ {
                        Ok(DataType::Utf8)
                    } else if n == "length"@ || n == "char_length"@ {
                        Ok(DataType::Int64)
                    } else if n == "coalesce"@ {
                        inferred(args@[0], fields)
                    } else if n == "nullif"@ {
                        if argc != 2 {
                            Err(fault(ErrorCode::InvalidArgument, "nullif requires 2 arguments"@))
                        } else {
                            inferred(args@[0], fields)
                        }
                    } else if n == "greatest"@ || n == "least"@ {
                        if argc == 0 {
                            Err(
                                fault(
                                    ErrorCode::InvalidArgument,
                                    name@ + " requires at least 1 argument"@,
                                ),
                            )
                        } else {
                            inferred(args@[0], fields)
                        }
                    } else {
                        Err(
                            fault(
                                ErrorCode::FeatureUnavailable,
                                "unknown function '"@ + n + "'"@,
                            ),
                        )
                    },
                }
            }
        },
        Expr::DynamicGet { expr, .. } => match inferred(*expr, fields) {
            Err(f) => Err(f),
            Ok(t) => if t != DataType::Dynamic && t != DataType::Null {
                Err(
                    fault(
                        ErrorCode::TypeMismatch,
                        "dynamic extract requires Dynamic, got "@ + t.name(),
                    ),
                )
            } else {
                Ok(DataType::Dynamic)
            },
        },
    }
}

/// The first fault among the types of a list.
pub open spec fn inferred_all(args: Seq<Expr>, fields: Seq<Field>) -> Option<Fault>
    decreases args,
{
    if args.len() == 0 {
        None
    } else {
        match inferred_all(args.drop_last(), fields) {
            Some(f) => Some(f),
            None => match inferred(args.last(), fields) {
                Err(f) => Some(f),
                Ok(_) => None,
            },
        }
    }
}

proof fn lemma_inferred_fault_stays(args: Seq<Expr>, k: int, fields: Seq<Field>)
    requires
        0 <= k <= args.len(),
        inferred_all(args.take(k), fields) is Some,
    ensures
        inferred_all(args, fields) == inferred_all(args.take(k), fields),
    decreases args.len() - k,
{
    if k < args.len() {
        assert(args.take(k + 1).drop_last() == args.take(k));
        lemma_inferred_fault_stays(args, k + 1, fields);
    } else {
        assert(args.take(k) == args);
    }
}

/// Infers the type of an expression.
pub fn infer_type(expr: &Expr, schema: &Schema) -> (r: Result<DataType, SparrowError>)
    ensures
        crate::model::outcome(r) == inferred(*expr, schema.fields@),
    decreases expr, 1int,
{
    match expr {
        Expr::Column { name } => match schema.index_of_name(name.as_str()) {
            Some(i) => Ok(schema.fields[i].data_type),
            None => Err(
                SparrowError::new(
                    ErrorCode::InvalidArgument,
                    cat3("unknown column '", name.as_str(), "'"),
                ),
            ),
        },
        Expr::Literal(s) => Ok(s.data_type()),
        Expr::Cast { expr, target } => match infer_type(expr, schema) {
            Ok(_) => Ok(*target),
            Err(e) => Err(e),
        },
        Expr::TryCast { expr, target } => match infer_type(expr, schema) {
            Ok(_) => Ok(*target),
            Err(e) => Err(e),
        },
        Expr::IsNull(_) => Ok(DataType::Bool),
        Expr::IsNotNull(_) => Ok(DataType::Bool),
        Expr::Not(_) => Ok(DataType::Bool),
        Expr::Binary { op, left, right } => {
            let a: DataType = match infer_type(left, schema) {
                Ok(t) => t,
                Err(e) => {
                    return Err(e);
                },
            };
            let b: DataType = match infer_type(right, schema) {
                Ok(t) => t,
                Err(e) => {
                    return Err(e);
                },
            };
            match op {
                BinaryOp::Add | BinaryOp::Sub | BinaryOp::Mul | BinaryOp::Div => infer_arith(a, b),
                _ => Ok(DataType::Bool),
            }
        },
        Expr::Call { name, args } => eval_call_sig(expr, name, args, schema),
        Expr::DynamicGet { expr, .. } => match infer_type(expr, schema) {
            Err(e) => Err(e),
            Ok(t) => if t != DataType::Dynamic && t != DataType::Null {
                Err(
                    SparrowError::new(
                        ErrorCode::TypeMismatch,
                        cat2("dynamic extract requires Dynamic, got ", t.as_str()),
                    ),
                )
            } else {
                Ok(DataType::Dynamic)
            },
        },
    }
}

fn eval_call_sig(expr: &Expr, name: &String, args: &Vec<Expr>, schema: &Schema) -> (r: Result<
    DataType,
    SparrowError,
>)
    requires
        *expr == (Expr::Call { name: *name, args: *args }),
    ensures
        crate::model::outcome(r) == inferred(*expr, schema.fields@),
    decreases expr, 0int,
{
    let argc: usize = args.len();
    let n: String = to_lower(name.as_str());
    let n: &str = n.as_str();
    let one: bool = same(n, "abs") || same(n, "lower") || same(n, "upper") || same(n, "length")
        || same(n, "char_length");
    if one && argc != 1 {
        return Err(
            SparrowError::new(
                ErrorCode::InvalidArgument,
                cat3(name.as_str(), " requires 1 argument, got ", dec(argc as u64).as_str()),
            ),
        );
    }
    if same(n, "coalesce") && argc == 0 {
        return Err(err(ErrorCode::InvalidArgument, "coalesce requires at least 1 argument"));
    }
    let mut first: DataType = DataType::Null;
    let mut i: usize = 0;
    assert(args@.take(0) == Seq::<Expr>::empty());
    while i < args.len()
        invariant
            i <= args.len(),
            *expr == (Expr::Call { name: *name, args: *args }),
            n@ == lowered(name@),
            argc == args.len(),
            unary_builtin(n@) ==> argc == 1,
            n@ == "coalesce"@ ==> argc > 0,
            inferred_all(args@.take(i as int), schema.fields@) is None,
            i > 0 ==> inferred(args@[0], schema.fields@) == Ok::<DataType, Fault>(first),
        decreases args.len() - i,
    {
        proof {
            assert(decreases_to!(*expr => expr->args));
            assert(decreases_to!(expr->args => expr->args@));
            assert(decreases_to!(args@ => args@[i as int]));
            assert(args@.take(i + 1).drop_last() == args@.take(i as int));
            assert(args@.take(i + 1).last() == args@[i as int]);
        }
        match infer_type(&args[i], schema) {
            Ok(t) => {
                if i == 0 {
                    first = t;
                }
            },
            Err(e) => {
                proof {
                    lemma_inferred_fault_stays(args@, i + 1, schema.fields@);
                }
                return Err(e);
            },
        }
        i = i + 1;
    }
    assert(args@.take(args@.len() as int) == args@);
    if same(n, "abs") {
        Ok(first)
    } else if same(n, "lower") || same(n, "upper") {
        Ok(DataType::Utf8)
    } else if same(n, "length") || same(n, "char_length") {
        Ok(DataType::Int64)
    } else if same(n, "coalesce") {
        Ok(first)
    } else if same(n, "nullif") {
        if argc != 2 {
            return Err(err(ErrorCode::InvalidArgument, "nullif requires 2 arguments"));
        }
        Ok(first)
    } else if same(n, "greatest") || same(n, "least") {
        if argc == 0 {
            return Err(
                SparrowError::new(
                    ErrorCode::InvalidArgument,
                    cat2(name.as_str(), " requires at least 1 argument"),
                ),
            );
        }
        Ok(first)
    } else {
        Err(
            SparrowError::new(
                ErrorCode::FeatureUnavailable,
                cat3("unknown function '", n, "'"),
            ),
        )
    }
}

/// Whether the value is a zero.
pub open spec fn zero(v: Val) -> bool {
    match v {
        Val::Int64(i) => i == 0,
        Val::UInt64(u) => u == 0,
        Val::Float64(b) => float_zero(b),
        Val::TimestampMicrosUTC(t) => t == 0,
        _ => false,
    }
}

/// Whether a divisor is known not to be zero: it is a literal of another value.
pub open spec fn divides(e: Expr) -> bool {
    e matches Expr::Literal(s) && !zero(s@)
}

fn is_divisor(e: &Expr) -> (r: bool)
    ensures
        r == divides(*e),
{
    match e {
        Expr::Literal(s) => match s {
            Scalar::Int64(i) => *i != 0,
            Scalar::UInt64(u) => *u != 0,
            Scalar::Float64(b) => float_abs(*b) != 0,
            Scalar::TimestampMicrosUTC(t) => *t != 0,
            _ => true,
        },
        _ => false,
    }
}

/// Whether an expression may be NULL on a valid row. A division may be, unless
/// its divisor is known not to be zero.
pub open spec fn nullable(e: Expr, fields: Seq<Field>) -> Result<bool, Fault>
    decreases e,
{
    match e {
        Expr::Column { name } => match column(fields, name@) {
            Some(i) => Ok(fields[i].nullable),
            None => Err(unknown_column(name@)),
        },
        Expr::Literal(s) => Ok(s@ is Null),
        Expr::Cast { expr, .. } => nullable(*expr, fields),
        Expr::TryCast { .. } => Ok(true),
        Expr::IsNull(_) => Ok(false),
        Expr::IsNotNull(_) => Ok(false),
        Expr::Not(inner) => nullable(*inner, fields),
        Expr::Binary { op, left, right } => match nullable(*left, fields) {
            Err(f) => Err(f),
            Ok(true) => Ok(true),
            Ok(false) => match nullable(*right, fields) {
                Err(f) => Err(f),
                Ok(b) => Ok(b || (op == BinaryOp::Div && !divides(*right))),
            },
        },
        Expr::Call { name, args } => {
            let n = lowered(name@);
            if n == "nullif"@ {
                Ok(true)
            } else if n == "coalesce"@ {
                if args@.len() == 0 {
                    Err(fault(ErrorCode::InvalidArgument, "coalesce requires at least 1 argument"@))
                } else {
                    all_nullable(args@, fields)
                }
            } else if n == "greatest"@ || n == "least"@ {
                any_nullable(args@, fields)
            } else if args@.len() == 0 {
                Ok(true)
            } else {
                nullable(args@[0], fields)
            }
        },
        Expr::DynamicGet { .. } => Ok(true),
    }
}

/// Whether every expression of a list may be NULL; the first that may not
/// decides.
pub open spec fn all_nullable(args: Seq<Expr>, fields: Seq<Field>) -> Result<bool, Fault>
    decreases args,
{
    if args.len() == 0 {
        Ok(true)
    } else {
        match all_nullable(args.drop_last(), fields) {
            Err(f) => Err(f),
            Ok(false) => Ok(false),
            Ok(true) => nullable(args.last(), fields),
        }
    }
}

/// Whether any expression of a list may be NULL.
pub open spec fn any_nullable(args: Seq<Expr>, fields: Seq<Field>) -> Result<bool, Fault>
    decreases args,
{
    if args.len() == 0 {
        Ok(false)
    } else {
        match any_nullable(args.drop_last(), fields) {
            Err(f) => Err(f),
            Ok(a) => match nullable(args.last(), fields) {
                Err(f) => Err(f),
                Ok(b) => Ok(a || b),
            },
        }
    }
}

proof fn lemma_all_nullable_stays(args: Seq<Expr>, k: int, fields: Seq<Field>)
    requires
        0 <= k <= args.len(),
        all_nullable(args.take(k), fields) != Ok::<bool, Fault>(true),
    ensures
        all_nullable(args, fields) == all_nullable(args.take(k), fields),
    decreases args.len() - k,
{
    if k < args.len() {
        assert(args.take(k + 1).drop_last() == args.take(k));
        lemma_all_nullable_stays(args, k + 1, fields);
    } else {
        assert(args.take(k) == args);
    }
}

proof fn lemma_any_nullable_stays(args: Seq<Expr>, k: int, fields: Seq<Field>)
    requires
        0 <= k <= args.len(),
        any_nullable(args.take(k), fields) is Err,
    ensures
        any_nullable(args, fields) == any_nullable(args.take(k), fields),
    decreases args.len() - k,
{
    if k < args.len() {
        assert(args.take(k + 1).drop_last() == args.take(k));
        lemma_any_nullable_stays(args, k + 1, fields);
    } else {
        assert(args.take(k) == args);
    }
}

/// Infers whether an expression may be NULL.
pub fn infer_nullable(expr: &Expr, schema: &Schema) -> (r: Result<bool, SparrowError>)
    ensures
        crate::model::outcome(r) == nullable(*expr, schema.fields@),
    decreases expr,
{
    match expr {
        Expr::Column { name } => match schema.index_of_name(name.as_str()) {
            Some(i) => Ok(schema.fields[i].nullable),
            None => Err(
                SparrowError::new(
                    ErrorCode::InvalidArgument,
                    cat3("unknown column '", name.as_str(), "'"),
                ),
            ),
        },
        Expr::Literal(s) => Ok(s.is_null()),
        Expr::Cast { expr, .. } => infer_nullable(expr, schema),
        Expr::TryCast { .. } => Ok(true),
        Expr::IsNull(_) => Ok(false),
        Expr::IsNotNull(_) => Ok(false),
        Expr::Not(inner) => infer_nullable(inner, schema),
        Expr::Binary { op, left, right } => match infer_nullable(left, schema) {
            Err(e) => Err(e),
            Ok(b) => if b {
                Ok(true)
            } else {
                match infer_nullable(right, schema) {
                    Err(e) => Err(e),
                    Ok(b) => Ok(b || (*op == BinaryOp::Div && !is_divisor(right))),
                }
            },
        },
        Expr::Call { name, args } => {
            let n: String = to_lower(name.as_str());
            let n: &str = n.as_str();
            if same(n, "nullif") {
                return Ok(true);
            }
            if same(n, "coalesce") {
                if args.len() == 0 {
                    return Err(
                        err(ErrorCode::InvalidArgument, "coalesce requires at least 1 argument"),
                    );
                }
                let mut i: usize = 0;
                assert(args@.take(0) == Seq::<Expr>::empty());
                while i < args.len()
                    invariant
                        i <= args.len(),
                        *expr == (Expr::Call { name: *name, args: *args }),
                        n@ == lowered(name@),
                        n@ == "coalesce"@,
                        n@ != "nullif"@,
                        args.len() > 0,
                        all_nullable(args@.take(i as int), schema.fields@) == Ok::<bool, Fault>(
                            true,
                        ),
                    decreases args.len() - i,
                {
                    proof {
                        assert(decreases_to!(*expr => expr->args));
                        assert(decreases_to!(expr->args => expr->args@));
                        assert(decreases_to!(args@ => args@[i as int]));
                        assert(args@.take(i + 1).drop_last() == args@.take(i as int));
                        assert(args@.take(i + 1).last() == args@[i as int]);
                    }
                    match infer_nullable(&args[i], schema) {
                        Ok(b) => {
                            if !b {
                                proof {
                                    lemma_all_nullable_stays(args@, i + 1, schema.fields@);
                                }
                                return Ok(false);
                            }
                        },
                        Err(e) => {
                            proof {
                                lemma_all_nullable_stays(args@, i + 1, schema.fields@);
                            }
                            return Err(e);
                        },
                    }
                    i = i + 1;
                }
                assert(args@.take(args@.len() as int) == args@);
                return Ok(true);
            }
            if same(n, "greatest") || same(n, "least") {
                let mut any: bool = false;
                let mut i: usize = 0;
                assert(args@.take(0) == Seq::<Expr>::empty());
                while i < args.len()
                    invariant
                        i <= args.len(),
                        *expr == (Expr::Call { name: *name, args: *args }),
                        n@ == lowered(name@),
                        n@ == "greatest"@ || n@ == "least"@,
                        n@ != "nullif"@,
                        n@ != "coalesce"@,
                        any_nullable(args@.take(i as int), schema.fields@) == Ok::<bool, Fault>(
                            any,
                        ),
                    decreases args.len() - i,
                {
                    proof {
                        assert(decreases_to!(*expr => expr->args));
                        assert(decreases_to!(expr->args => expr->args@));
                        assert(decreases_to!(args@ => args@[i as int]));
                        assert(args@.take(i + 1).drop_last() == args@.take(i as int));
                        assert(args@.take(i + 1).last() == args@[i as int]);
                    }
                    match infer_nullable(&args[i], schema) {
                        Ok(b) => {
                            any = any || b;
                        },
                        Err(e) => {
                            proof {
                                lemma_any_nullable_stays(args@, i + 1, schema.fields@);
                            }
                            return Err(e);
                        },
                    }
                    i = i + 1;
                }
                assert(args@.take(args@.len() as int) == args@);
                return Ok(any);
            }
            if args.len() == 0 {
                Ok(true)
            } else {
                proof {
                    assert(decreases_to!(*expr => expr->args));
                    assert(decreases_to!(expr->args => expr->args@));
                    assert(decreases_to!(args@ => args@[0]));
                }
                infer_nullable(&args[0], schema)
            }
        },
        Expr::DynamicGet { .. } => Ok(true),
    }
}

/// Arithmetic on two numbers has the type that is inferred from theirs,
/// unless it is NULL.
pub proof fn law_arithmetic_has_the_inferred_type(op: BinaryOp, a: Val, b: Val, g: Floats)
    requires
        arithmetic(op),
    ensures
        match (arith_type(type_of(a), type_of(b)), arith(op, a, b, g)) {
            (Ok(t), Ok(v)) => v is Null || type_of(v) == t,
            _ => true,
        },
{
}

/// The row has a cell for every column, and no NULL where none is allowed.
pub open spec fn valid_row(fields: Seq<Field>, row: Seq<Val>) -> bool {
    row.len() >= fields.len() && forall|i: int|
        0 <= i < fields.len() && !(#[trigger] fields[i]).nullable ==> !(row[i] is Null)
}

/// An expression that is inferred not to be nullable is never NULL on a valid
/// row.
pub proof fn law_non_nullable_is_never_null(e: Expr, fields: Seq<Field>, row: Seq<Val>, g: Floats)
    requires
        nullable(e, fields) == Ok::<bool, Fault>(false),
        valid_row(fields, row),
        converts(g),
    ensures
        value(e, fields, row, g) != Ok::<Val, Fault>(Val::Null),
    decreases e, 1nat,
{
    match e {
        Expr::Column { name } => {
            lemma_column(fields, name@);
        },
        Expr::Cast { expr, .. } => {
            law_non_nullable_is_never_null(*expr, fields, row, g);
        },
        Expr::Not(x) => {
            law_non_nullable_is_never_null(*x, fields, row, g);
        },
        Expr::Binary { .. } => {
            lemma_binary_present(e, fields, row, g);
        },
        Expr::Call { .. } => {
            lemma_call_present(e, fields, row, g);
        },
        _ => {},
    }
}

#[verifier::spinoff_prover]
proof fn lemma_binary_present(e: Expr, fields: Seq<Field>, row: Seq<Val>, g: Floats)
    requires
        e is Binary,
        nullable(e, fields) == Ok::<bool, Fault>(false),
        valid_row(fields, row),
        converts(g),
    ensures
        value(e, fields, row, g) != Ok::<Val, Fault>(Val::Null),
    decreases e, 0nat,
{
    match e {
        Expr::Binary { left, right, .. } => {
            law_non_nullable_is_never_null(*left, fields, row, g);
            law_non_nullable_is_never_null(*right, fields, row, g);
        },
        _ => {},
    }
}

#[verifier::spinoff_prover]
proof fn lemma_call_present(e: Expr, fields: Seq<Field>, row: Seq<Val>, g: Floats)
    requires
        e is Call,
        nullable(e, fields) == Ok::<bool, Fault>(false),
        valid_row(fields, row),
        converts(g),
    ensures
        value(e, fields, row, g) != Ok::<Val, Fault>(Val::Null),
    decreases e, 0nat,
{
    match e {
        Expr::Call { name, args } => {
            let n = lowered(name@);
            match values(args@, fields, row, g) {
                Ok(vs) => {
                    lemma_values_len(args@, fields, row, g);
                    assert(decreases_to!(e => e->args));
                    assert(decreases_to!(e->args => e->args@));
                    if n == "coalesce"@ {
                        lemma_present_argument(args@, fields, row, g);
                        lemma_first_present(vs);
                    } else if n == "greatest"@ || n == "least"@ {
                        lemma_all_present(args@, fields, row, g);
                        if vs.len() > 0 {
                            lemma_extreme_present(vs, n == "greatest"@, g);
                        }
                    } else if n != "nullif"@ {
                        assert(decreases_to!(args@ => args@[0]));
                        law_non_nullable_is_never_null(args@[0], fields, row, g);
                        assert(value(args@[0], fields, row, g) == Ok::<Val, Fault>(vs[0]));
                    }
                },
                Err(_) => {},
            }
        },
        _ => {},
    }
}

pub(crate) proof fn lemma_values_len(args: Seq<Expr>, fields: Seq<Field>, row: Seq<Val>, g: Floats)
    ensures
        match values(args, fields, row, g) {
            Ok(vs) => vs.len() == args.len() && forall|i: int|
                0 <= i < args.len() ==> value(#[trigger] args[i], fields, row, g) == Ok::<
                    Val,
                    Fault,
                >(vs[i]),
            Err(_) => true,
        },
    decreases args.len(),
{
    if args.len() > 0 {
        lemma_values_len(args.drop_last(), fields, row, g);
        assert(forall|i: int|
            0 <= i < args.len() - 1 ==> #[trigger] args[i] == args.drop_last()[i]);
    }
}

proof fn lemma_present_argument(args: Seq<Expr>, fields: Seq<Field>, row: Seq<Val>, g: Floats)
    requires
        all_nullable(args, fields) == Ok::<bool, Fault>(false),
        valid_row(fields, row),
        converts(g),
        values(args, fields, row, g) is Ok,
    ensures
        exists|i: int|
            0 <= i < args.len() && !(#[trigger] values(args, fields, row, g)->Ok_0[i] is Null),
    decreases args, 0nat,
{
    let vs = values(args, fields, row, g)->Ok_0;
    if args.len() > 0 {
        let rest = values(args.drop_last(), fields, row, g)->Ok_0;
        lemma_values_len(args, fields, row, g);
        lemma_values_len(args.drop_last(), fields, row, g);
        if all_nullable(args.drop_last(), fields) == Ok::<bool, Fault>(false) {
            lemma_present_argument(args.drop_last(), fields, row, g);
            let i = choose|i: int| 0 <= i < args.len() - 1 && !(#[trigger] rest[i] is Null);
            assert(vs[i] == rest[i]);
        } else {
            law_non_nullable_is_never_null(args.last(), fields, row, g);
            assert(!(vs[args.len() - 1] is Null));
        }
    }
}

proof fn lemma_first_present(vs: Seq<Val>)
    requires
        exists|i: int| 0 <= i < vs.len() && !(#[trigger] vs[i] is Null),
    ensures
        !(first_present(vs) is Null),
    decreases vs.len(),
{
    let i = choose|i: int| 0 <= i < vs.len() && !(#[trigger] vs[i] is Null);
    if vs[0] is Null {
        assert(vs.skip(1)[i - 1] == vs[i]);
        lemma_first_present(vs.skip(1));
    }
}

proof fn lemma_all_present(args: Seq<Expr>, fields: Seq<Field>, row: Seq<Val>, g: Floats)
    requires
        any_nullable(args, fields) == Ok::<bool, Fault>(false),
        valid_row(fields, row),
        converts(g),
        values(args, fields, row, g) is Ok,
    ensures
        values(args, fields, row, g)->Ok_0.len() == args.len(),
        forall|i: int|
            0 <= i < args.len() ==> !(#[trigger] values(args, fields, row, g)->Ok_0[i] is Null),
    decreases args, 0nat,
{
    if args.len() > 0 {
        lemma_all_present(args.drop_last(), fields, row, g);
        law_non_nullable_is_never_null(args.last(), fields, row, g);
    }
}

proof fn lemma_extreme_present(vs: Seq<Val>, greatest: bool, g: Floats)
    requires
        vs.len() > 0,
        forall|i: int| 0 <= i < vs.len() ==> !(#[trigger] vs[i] is Null),
    ensures
        match extreme(vs, greatest, g) {
            Ok(Some(v)) => !(v is Null),
            Ok(None) => false,
            Err(_) => true,
        },
    decreases vs.len(),
{
    if vs.len() > 1 {
        lemma_extreme_present(vs.drop_last(), greatest, g);
    } else {
        assert(vs.drop_last() == Seq::<Val>::empty());
        assert(extreme(Seq::<Val>::empty(), greatest, g) == Ok::<Option<Val>, Fault>(None));
    }
}

} // verus!
