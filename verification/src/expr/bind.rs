//! Binding: column names are resolved once, evaluation then indexes the row.

use super::eval::{
    arity_fault, binary, called, cast, check_call_arity, converted, eval_binary, eval_call_values,
    extract, extracted, negate, negated, seen, unknown_column, value, values,
};
use super::float::{agrees, answers, FloatOp, FloatReply, Floats};
use super::{BinaryOp, Expr};
use crate::model::{
    column, fault, lemma_column, vals, DataType, ErrorCode, Fault, Field, Scalar, Schema,
    SparrowError, Val,
};
use crate::text::{cat3, cat4, dec, decimal, lower, lowered, to_lower};
use vstd::prelude::*;

verus! {

/// An expression whose columns are indices into the row.
#[derive(Debug)]
pub enum BoundExpr {
    Column { index: usize },
    Literal(Scalar),
    Cast { expr: Box<BoundExpr>, target: DataType },
    TryCast { expr: Box<BoundExpr>, target: DataType },
    Binary { op: BinaryOp, left: Box<BoundExpr>, right: Box<BoundExpr> },
    IsNull(Box<BoundExpr>),
    IsNotNull(Box<BoundExpr>),
    Not(Box<BoundExpr>),
    Call { name: String, args: Vec<BoundExpr> },
    DynamicGet { expr: Box<BoundExpr>, key: String },
}

/// `b` is `e` with every column replaced by its index and every function name
/// in lower case.
pub open spec fn binds(e: Expr, fields: Seq<Field>, b: BoundExpr) -> bool
    decreases e,
{
    match (e, b) {
        (Expr::Column { name }, BoundExpr::Column { index }) => column(fields, name@) == Some(
            index as int,
        ),
        (Expr::Literal(s), BoundExpr::Literal(t)) => s@ == t@,
        (Expr::Cast { expr, target }, BoundExpr::Cast { expr: x, target: t }) => target == t
            && binds(*expr, fields, *x),
        (Expr::TryCast { expr, target }, BoundExpr::TryCast { expr: x, target: t }) => target == t
            && binds(*expr, fields, *x),
        (Expr::Binary { op, left, right }, BoundExpr::Binary { op: o, left: l, right: r }) => op
            == o && binds(*left, fields, *l) && binds(*right, fields, *r),
        (Expr::IsNull(x), BoundExpr::IsNull(y)) => binds(*x, fields, *y),
        (Expr::IsNotNull(x), BoundExpr::IsNotNull(y)) => binds(*x, fields, *y),
        (Expr::Not(x), BoundExpr::Not(y)) => binds(*x, fields, *y),
        (Expr::Call { name, args }, BoundExpr::Call { name: n, args: a }) => n@ == lowered(name@)
            && arity_fault(n@, args@.len()) is None && binds_all(args@, fields, a@),
        (Expr::DynamicGet { expr, key }, BoundExpr::DynamicGet { expr: x, key: k }) => key@ == k@
            && binds(*expr, fields, *x),
        _ => false,
    }
}

/// Each of `b` is the binding of the expression at its place in `e`.
pub open spec fn binds_all(e: Seq<Expr>, fields: Seq<Field>, b: Seq<BoundExpr>) -> bool
    decreases e,
{
    if e.len() != b.len() {
        false
    } else if e.len() == 0 {
        true
    } else {
        binds_all(e.drop_last(), fields, b.drop_last()) && binds(e.last(), fields, b.last())
    }
}

/// Why an expression cannot be bound: the first unknown column or call with a
/// wrong number of arguments.
pub open spec fn bind_fault(e: Expr, fields: Seq<Field>) -> Option<Fault>
    decreases e,
{
    match e {
        Expr::Column { name } => if column(fields, name@) is None {
            Some(unknown_column(name@))
        } else {
            None
        },
        Expr::Literal(_) => None,
        Expr::Cast { expr, .. } => bind_fault(*expr, fields),
        Expr::TryCast { expr, .. } => bind_fault(*expr, fields),
        Expr::Binary { left, right, .. } => match bind_fault(*left, fields) {
            Some(f) => Some(f),
            None => bind_fault(*right, fields),
        },
        Expr::IsNull(x) => bind_fault(*x, fields),
        Expr::IsNotNull(x) => bind_fault(*x, fields),
        Expr::Not(x) => bind_fault(*x, fields),
        Expr::Call { name, args } => match arity_fault(lowered(name@), args@.len()) {
            Some(f) => Some(f),
            None => bind_faults(args@, fields),
        },
        Expr::DynamicGet { expr, .. } => bind_fault(*expr, fields),
    }
}

/// The first fault in a list of expressions.
pub open spec fn bind_faults(e: Seq<Expr>, fields: Seq<Field>) -> Option<Fault>
    decreases e,
{
    if e.len() == 0 {
        None
    } else {
        match bind_faults(e.drop_last(), fields) {
            Some(f) => Some(f),
            None => bind_fault(e.last(), fields),
        }
    }
}

proof fn lemma_bind_fault_stays(e: Seq<Expr>, k: int, fields: Seq<Field>)
    requires
        0 <= k <= e.len(),
        bind_faults(e.take(k), fields) is Some,
    ensures
        bind_faults(e, fields) == bind_faults(e.take(k), fields),
    decreases e.len() - k,
{
    if k < e.len() {
        assert(e.take(k + 1).drop_last() == e.take(k));
        lemma_bind_fault_stays(e, k + 1, fields);
    } else {
        assert(e.take(k) == e);
    }
}

/// Resolves every column of an expression against a schema.
pub fn bind(expr: &Expr, schema: &Schema) -> (r: Result<BoundExpr, SparrowError>)
    ensures
        match r {
            Ok(b) => bind_fault(*expr, schema.fields@) is None && binds(
                *expr,
                schema.fields@,
                b,
            ),
            Err(e) => bind_fault(*expr, schema.fields@) == Some(e@),
        },
    decreases expr,
{
    match expr {
        Expr::Column { name } => match schema.index_of_name(name.as_str()) {
            Some(index) => Ok(BoundExpr::Column { index }),
            None => Err(
                SparrowError::new(
                    ErrorCode::InvalidArgument,
                    cat3("unknown column '", name.as_str(), "'"),
                ),
            ),
        },
        Expr::Literal(s) => Ok(BoundExpr::Literal(s.clone())),
        Expr::Cast { expr, target } => match bind(expr, schema) {
            Ok(x) => Ok(BoundExpr::Cast { expr: Box::new(x), target: *target }),
            Err(e) => Err(e),
        },
        Expr::TryCast { expr, target } => match bind(expr, schema) {
            Ok(x) => Ok(BoundExpr::TryCast { expr: Box::new(x), target: *target }),
            Err(e) => Err(e),
        },
        Expr::Binary { op, left, right } => {
            let l: BoundExpr = match bind(left, schema) {
                Ok(x) => x,
                Err(e) => {
                    return Err(e);
                },
            };
            let r: BoundExpr = match bind(right, schema) {
                Ok(x) => x,
                Err(e) => {
                    return Err(e);
                },
            };
            Ok(BoundExpr::Binary { op: *op, left: Box::new(l), right: Box::new(r) })
        },
        Expr::IsNull(inner) => match bind(inner, schema) {
            Ok(x) => Ok(BoundExpr::IsNull(Box::new(x))),
            Err(e) => Err(e),
        },
        Expr::IsNotNull(inner) => match bind(inner, schema) {
            Ok(x) => Ok(BoundExpr::IsNotNull(Box::new(x))),
            Err(e) => Err(e),
        },
        Expr::Not(inner) => match bind(inner, schema) {
            Ok(x) => Ok(BoundExpr::Not(Box::new(x))),
            Err(e) => Err(e),
        },
        Expr::Call { name, args } => {
            let lower_name: String = to_lower(name.as_str());
            match check_call_arity(lower_name.as_str(), args.len()) {
                Ok(()) => {},
                Err(e) => {
                    return Err(e);
                },
            }
            let mut bound: Vec<BoundExpr> = Vec::new();
            let mut i: usize = 0;
            assert(args@.take(0) == Seq::<Expr>::empty());
            while i < args.len()
                invariant
                    i <= args.len(),
                    lower_name@ == lowered(name@),
                    *expr == (Expr::Call { name: *name, args: *args }),
                    arity_fault(lower_name@, args@.len()) is None,
                    bind_faults(args@.take(i as int), schema.fields@) is None,
                    binds_all(args@.take(i as int), schema.fields@, bound@),
                decreases args.len() - i,
            {
                let ghost before = bound@;
                proof {
                    assert(decreases_to!(*expr => expr->args));
                    assert(decreases_to!(expr->args => expr->args@));
                    assert(decreases_to!(args@ => args@[i as int]));
                    assert(args@.take(i + 1).drop_last() == args@.take(i as int));
                    assert(args@.take(i + 1).last() == args@[i as int]);
                }
                match bind(&args[i], schema) {
                    Ok(x) => {
                        bound.push(x);
                        assert(bound@.drop_last() == before);
                    },
                    Err(e) => {
                        proof {
                            lemma_bind_fault_stays(args@, i + 1, schema.fields@);
                        }
                        return Err(e);
                    },
                }
                i = i + 1;
            }
            assert(args@.take(args@.len() as int) == args@);
            Ok(BoundExpr::Call { name: lower_name, args: bound })
        },
        Expr::DynamicGet { expr, key } => match bind(expr, schema) {
            Ok(x) => Ok(BoundExpr::DynamicGet { expr: Box::new(x), key: key.clone() }),
            Err(e) => Err(e),
        },
    }
}

/// The value of a bound expression. A row that is too short is an error.
pub open spec fn bound_value(b: BoundExpr, row: Seq<Val>, g: Floats) -> Result<Val, Fault>
    decreases b,
{
    match b {
        BoundExpr::Column { index } => if index < row.len() {
            Ok(row[index as int])
        } else {
            Err(
                fault(
                    ErrorCode::Internal,
                    "bound column "@ + decimal(index as nat) + " outside row of width "@ + decimal(
                        row.len(),
                    ),
                ),
            )
        },
        BoundExpr::Literal(s) => Ok(s@),
        BoundExpr::Cast { expr, target } => match bound_value(*expr, row, g) {
            Ok(v) => converted(v, target, false, g),
            Err(e) => Err(e),
        },
        BoundExpr::TryCast { expr, target } => match bound_value(*expr, row, g) {
            Ok(v) => converted(v, target, true, g),
            Err(e) => Err(e),
        },
        BoundExpr::Binary { op, left, right } => match bound_value(*left, row, g) {
            Err(e) => Err(e),
            Ok(x) => match bound_value(*right, row, g) {
                Err(e) => Err(e),
                Ok(y) => binary(op, x, y, g),
            },
        },
        BoundExpr::IsNull(inner) => match bound_value(*inner, row, g) {
            Ok(v) => Ok(Val::Bool(v is Null)),
            Err(e) => Err(e),
        },
        BoundExpr::IsNotNull(inner) => match bound_value(*inner, row, g) {
            Ok(v) => Ok(Val::Bool(!(v is Null))),
            Err(e) => Err(e),
        },
        BoundExpr::Not(inner) => match bound_value(*inner, row, g) {
            Ok(v) => negated(v),
            Err(e) => Err(e),
        },
        BoundExpr::Call { name, args } => match bound_values(args@, row, g) {
            Err(e) => Err(e),
            Ok(vs) => called(name@, vs, g),
        },
        BoundExpr::DynamicGet { expr, key } => match bound_value(*expr, row, g) {
            Ok(v) => extracted(v, key@),
            Err(e) => Err(e),
        },
    }
}

/// The values of a list of bound expressions; the first fault where one fails.
pub open spec fn bound_values(args: Seq<BoundExpr>, row: Seq<Val>, g: Floats) -> Result<
    Seq<Val>,
    Fault,
>
    decreases args,
{
    if args.len() == 0 {
        Ok(Seq::empty())
    } else {
        match bound_values(args.drop_last(), row, g) {
            Err(e) => Err(e),
            Ok(vs) => match bound_value(args.last(), row, g) {
                Err(e) => Err(e),
                Ok(v) => Ok(vs.push(v)),
            },
        }
    }
}

proof fn lemma_bound_error_stays(args: Seq<BoundExpr>, k: int, row: Seq<Val>, g: Floats)
    requires
        0 <= k <= args.len(),
        bound_values(args.take(k), row, g) is Err,
    ensures
        bound_values(args, row, g) == bound_values(args.take(k), row, g),
    decreases args.len() - k,
{
    if k < args.len() {
        assert(args.take(k + 1).drop_last() == args.take(k));
        lemma_bound_error_stays(args, k + 1, row, g);
    } else {
        assert(args.take(k) == args);
    }
}

/// Evaluates a bound expression on a row.
pub fn eval_bound<F: Fn(FloatOp) -> FloatReply>(expr: &BoundExpr, row: &[Scalar], f: &F) -> (r:
    Result<Scalar, SparrowError>)
    requires
        answers(*f),
    ensures
        forall|g: Floats|
            #[trigger] agrees(*f, g) ==> seen(r) == bound_value(*expr, vals(row@), g),
    decreases expr,
{
    match expr {
        BoundExpr::Column { index } => if *index < row.len() {
            Ok(row[*index].clone())
        } else {
            assert(vals(row@).len() == row.len());
            Err(
                SparrowError::new(
                    ErrorCode::Internal,
                    cat4(
                        "bound column ",
                        dec(*index as u64).as_str(),
                        " outside row of width ",
                        dec(row.len() as u64).as_str(),
                    ),
                ),
            )
        },
        BoundExpr::Literal(s) => Ok(s.clone()),
        BoundExpr::Cast { expr, target } => match eval_bound(expr, row, f) {
            Ok(v) => cast(&v, *target, false, f),
            Err(e) => Err(e),
        },
        BoundExpr::TryCast { expr, target } => match eval_bound(expr, row, f) {
            Ok(v) => cast(&v, *target, true, f),
            Err(e) => Err(e),
        },
        BoundExpr::Binary { op, left, right } => {
            let a: Scalar = match eval_bound(left, row, f) {
                Ok(v) => v,
                Err(e) => {
                    return Err(e);
                },
            };
            let b: Scalar = match eval_bound(right, row, f) {
                Ok(v) => v,
                Err(e) => {
                    return Err(e);
                },
            };
            eval_binary(*op, &a, &b, f)
        },
        BoundExpr::IsNull(inner) => match eval_bound(inner, row, f) {
            Ok(v) => Ok(Scalar::Bool(v.is_null())),
            Err(e) => Err(e),
        },
        BoundExpr::IsNotNull(inner) => match eval_bound(inner, row, f) {
            Ok(v) => Ok(Scalar::Bool(!v.is_null())),
            Err(e) => Err(e),
        },
        BoundExpr::Not(inner) => match eval_bound(inner, row, f) {
            Ok(v) => negate(&v),
            Err(e) => Err(e),
        },
        BoundExpr::Call { name, args } => {
            let mut vs: Vec<Scalar> = Vec::new();
            let mut i: usize = 0;
            assert(vals(vs@) == Seq::<Val>::empty());
            assert(args@.take(0) == Seq::<BoundExpr>::empty());
            while i < args.len()
                invariant
                    i <= args.len(),
                    answers(*f),
                    *expr == (BoundExpr::Call { name: *name, args: *args }),
                    forall|g: Floats| #[trigger]
                        agrees(*f, g) ==> bound_values(args@.take(i as int), vals(row@), g) == Ok::<
                            Seq<Val>,
                            Fault,
                        >(vals(vs@)),
                decreases args.len() - i,
            {
                let ghost before = vs@;
                proof {
                    assert(decreases_to!(*expr => expr->args));
                    assert(decreases_to!(expr->args => expr->args@));
                    assert(decreases_to!(args@ => args@[i as int]));
                    assert(args@.take(i + 1).drop_last() == args@.take(i as int));
                    assert(args@.take(i + 1).last() == args@[i as int]);
                }
                match eval_bound(&args[i], row, f) {
                    Ok(v) => {
                        vs.push(v);
                        assert(vals(vs@) == vals(before).push(v@));
                    },
                    Err(e) => {
                        proof {
                            assert forall|g: Floats| #[trigger] agrees(*f, g) implies bound_values(
                                args@,
                                vals(row@),
                                g,
                            ) == Err::<Seq<Val>, Fault>(e@) by {
                                lemma_bound_error_stays(args@, i + 1, vals(row@), g);
                            }
                        }
                        return Err(e);
                    },
                }
                i = i + 1;
            }
            assert(args@.take(args@.len() as int) == args@);
            eval_call_values(name.as_str(), &vs, f)
        },
        BoundExpr::DynamicGet { expr, key } => match eval_bound(expr, row, f) {
            Ok(v) => extract(&v, key.as_str()),
            Err(e) => Err(e),
        },
    }
}

/// The two results hold the same value, or errors with the same code.
pub open spec fn alike<T>(a: Result<T, Fault>, b: Result<T, Fault>) -> bool {
    match (a, b) {
        (Ok(x), Ok(y)) => x == y,
        (Err(x), Err(y)) => x.code == y.code,
        _ => false,
    }
}

proof fn lemma_lowered_twice(s: Seq<char>)
    ensures
        lowered(lowered(s)) == lowered(s),
{
    assert forall|i: int| 0 <= i < s.len() implies #[trigger] lower(lower(s[i])) == lower(s[i]) by {
    }
    assert(lowered(lowered(s)) =~= lowered(s));
}

/// On a row as wide as the schema, a bound expression has the value of the
/// expression it was bound from, or fails with the same code.
pub proof fn law_bound_matches_unbound(
    e: Expr,
    fields: Seq<Field>,
    b: BoundExpr,
    row: Seq<Val>,
    g: Floats,
)
    requires
        binds(e, fields, b),
        row.len() >= fields.len(),
    ensures
        alike(bound_value(b, row, g), value(e, fields, row, g)),
    decreases e,
{
    match (e, b) {
        (Expr::Column { name }, BoundExpr::Column { .. }) => {
            lemma_column(fields, name@);
        },
        (Expr::Cast { expr, .. }, BoundExpr::Cast { expr: x, .. }) => {
            law_bound_matches_unbound(*expr, fields, *x, row, g);
        },
        (Expr::TryCast { expr, .. }, BoundExpr::TryCast { expr: x, .. }) => {
            law_bound_matches_unbound(*expr, fields, *x, row, g);
        },
        (Expr::Binary { left, right, .. }, BoundExpr::Binary { left: l, right: r, .. }) => {
            law_bound_matches_unbound(*left, fields, *l, row, g);
            law_bound_matches_unbound(*right, fields, *r, row, g);
        },
        (Expr::IsNull(x), BoundExpr::IsNull(y)) => {
            law_bound_matches_unbound(*x, fields, *y, row, g);
        },
        (Expr::IsNotNull(x), BoundExpr::IsNotNull(y)) => {
            law_bound_matches_unbound(*x, fields, *y, row, g);
        },
        (Expr::Not(x), BoundExpr::Not(y)) => {
            law_bound_matches_unbound(*x, fields, *y, row, g);
        },
        (Expr::Call { name, args }, BoundExpr::Call { args: a, .. }) => {
            lemma_lowered_twice(name@);
            lemma_bound_list(args@, fields, a@, row, g);
        },
        (Expr::DynamicGet { expr, .. }, BoundExpr::DynamicGet { expr: x, .. }) => {
            law_bound_matches_unbound(*expr, fields, *x, row, g);
        },
        _ => {},
    }
}

proof fn lemma_bound_list(
    e: Seq<Expr>,
    fields: Seq<Field>,
    b: Seq<BoundExpr>,
    row: Seq<Val>,
    g: Floats,
)
    requires
        binds_all(e, fields, b),
        row.len() >= fields.len(),
    ensures
        alike(bound_values(b, row, g), values(e, fields, row, g)),
    decreases e,
{
    if e.len() > 0 {
        lemma_bound_list(e.drop_last(), fields, b.drop_last(), row, g);
        law_bound_matches_unbound(e.last(), fields, b.last(), row, g);
    }
}

/// What cannot be bound evaluates on no row.
pub proof fn law_unbindable_never_evaluates(e: Expr, fields: Seq<Field>, row: Seq<Val>, g: Floats)
    requires
        bind_fault(e, fields) is Some,
    ensures
        value(e, fields, row, g) is Err,
    decreases e,
{
    match e {
        Expr::Cast { expr, .. } => {
            law_unbindable_never_evaluates(*expr, fields, row, g);
        },
        Expr::TryCast { expr, .. } => {
            law_unbindable_never_evaluates(*expr, fields, row, g);
        },
        Expr::Binary { left, right, .. } => {
            if bind_fault(*left, fields) is Some {
                law_unbindable_never_evaluates(*left, fields, row, g);
            } else {
                law_unbindable_never_evaluates(*right, fields, row, g);
            }
        },
        Expr::IsNull(x) => {
            law_unbindable_never_evaluates(*x, fields, row, g);
        },
        Expr::IsNotNull(x) => {
            law_unbindable_never_evaluates(*x, fields, row, g);
        },
        Expr::Not(x) => {
            law_unbindable_never_evaluates(*x, fields, row, g);
        },
        Expr::Call { name, args } => {
            lemma_lowered_twice(name@);
            if arity_fault(lowered(name@), args@.len()) is None {
                lemma_unbindable_list(args@, fields, row, g);
            }
        },
        Expr::DynamicGet { expr, .. } => {
            law_unbindable_never_evaluates(*expr, fields, row, g);
        },
        _ => {},
    }
}

proof fn lemma_unbindable_list(e: Seq<Expr>, fields: Seq<Field>, row: Seq<Val>, g: Floats)
    requires
        bind_faults(e, fields) is Some,
    ensures
        values(e, fields, row, g) is Err,
    decreases e,
{
    if e.len() > 0 {
        if bind_faults(e.drop_last(), fields) is Some {
            lemma_unbindable_list(e.drop_last(), fields, row, g);
        } else {
            law_unbindable_never_evaluates(e.last(), fields, row, g);
        }
    }
}

/// All bindings of an expression have the same value.
pub proof fn law_bindings_agree(
    e: Expr,
    fields: Seq<Field>,
    b: BoundExpr,
    c: BoundExpr,
    row: Seq<Val>,
    g: Floats,
)
    requires
        binds(e, fields, b),
        binds(e, fields, c),
    ensures
        bound_value(b, row, g) == bound_value(c, row, g),
    decreases e,
{
    match e {
        Expr::Cast { expr, .. } => {
            law_bindings_agree(*expr, fields, *b->Cast_expr, *c->Cast_expr, row, g);
        },
        Expr::TryCast { expr, .. } => {
            law_bindings_agree(*expr, fields, *b->TryCast_expr, *c->TryCast_expr, row, g);
        },
        Expr::Binary { left, right, .. } => {
            law_bindings_agree(*left, fields, *b->left, *c->left, row, g);
            law_bindings_agree(*right, fields, *b->right, *c->right, row, g);
        },
        Expr::IsNull(x) => {
            law_bindings_agree(*x, fields, *b->IsNull_0, *c->IsNull_0, row, g);
        },
        Expr::IsNotNull(x) => {
            law_bindings_agree(*x, fields, *b->IsNotNull_0, *c->IsNotNull_0, row, g);
        },
        Expr::Not(x) => {
            law_bindings_agree(*x, fields, *b->Not_0, *c->Not_0, row, g);
        },
        Expr::Call { args, .. } => {
            lemma_bindings_agree_all(args@, fields, b->args@, c->args@, row, g);
        },
        Expr::DynamicGet { expr, .. } => {
            law_bindings_agree(*expr, fields, *b->DynamicGet_expr, *c->DynamicGet_expr, row, g);
        },
        _ => {},
    }
}

proof fn lemma_bindings_agree_all(
    e: Seq<Expr>,
    fields: Seq<Field>,
    b: Seq<BoundExpr>,
    c: Seq<BoundExpr>,
    row: Seq<Val>,
    g: Floats,
)
    requires
        binds_all(e, fields, b),
        binds_all(e, fields, c),
    ensures
        bound_values(b, row, g) == bound_values(c, row, g),
    decreases e,
{
    if e.len() > 0 {
        lemma_bindings_agree_all(e.drop_last(), fields, b.drop_last(), c.drop_last(), row, g);
        law_bindings_agree(e.last(), fields, b.last(), c.last(), row, g);
    }
}

} // verus!
