//! Filters: the rows that a predicate keeps, with a short cut for comparing a
//! numeric column with a literal.

use super::bind::{
    alike, bind, bind_fault, binds, bound_value, eval_bound, law_bindings_agree,
    law_bound_matches_unbound, BoundExpr,
};
use super::eval::{as_float, scalar_as_float, seen, value};
use super::float::{
    agrees, answers, converts, float_eq, float_lt, is_float_eq, is_float_lt, nan, FloatOp,
    FloatReply, Floats,
};
use super::{BinaryOp, Expr};
use crate::model::{
    column, err, fault, lemma_column, type_of, vals, DataType, ErrorCode, Fault, Field, Row,
    Scalar, Schema, SparrowError, Val,
};
use crate::text::cat2;
use vstd::prelude::*;

verus! {

/// A comparison of a column with a number.
#[derive(Debug)]
pub enum SimplePred {
    CmpF64 { column: String, op: BinaryOp, thr: u64 },
}

/// A comparison of a column with a number, as a mathematical value.
pub ghost struct Simple {
    pub column: Seq<char>,
    pub op: BinaryOp,
    pub thr: u64,
}

/// Whether the operator compares.
pub open spec fn compares(op: BinaryOp) -> bool {
    op == BinaryOp::Gt || op == BinaryOp::Gte || op == BinaryOp::Lt || op == BinaryOp::Lte || op
        == BinaryOp::Eq || op == BinaryOp::NotEq
}

/// The operator with its sides exchanged.
pub open spec fn flipped(op: BinaryOp) -> BinaryOp {
    match op {
        BinaryOp::Gt => BinaryOp::Lt,
        BinaryOp::Gte => BinaryOp::Lte,
        BinaryOp::Lt => BinaryOp::Gt,
        BinaryOp::Lte => BinaryOp::Gte,
        _ => op,
    }
}

fn flip(op: BinaryOp) -> (r: BinaryOp)
    ensures
        r == flipped(op),
{
    match op {
        BinaryOp::Gt => BinaryOp::Lt,
        BinaryOp::Gte => BinaryOp::Lte,
        BinaryOp::Lt => BinaryOp::Gt,
        BinaryOp::Lte => BinaryOp::Gte,
        _ => op,
    }
}

/// The simple comparison that an expression is, if it is one. The column is
/// put on the left.
pub open spec fn simple(e: Expr, g: Floats) -> Option<Simple> {
    match e {
        Expr::Binary { op, left, right } => if compares(op) {
            match (*left, *right) {
                (Expr::Column { name }, Expr::Literal(lit)) => match as_float(lit@, g) {
                    Some(thr) => Some(Simple { column: name@, op, thr }),
                    None => None,
                },
                (Expr::Literal(lit), Expr::Column { name }) => match as_float(lit@, g) {
                    Some(thr) => Some(Simple { column: name@, op: flipped(op), thr }),
                    None => None,
                },
                _ => None,
            }
        } else {
            None
        },
        _ => None,
    }
}

impl View for SimplePred {
    type V = Simple;

    open spec fn view(&self) -> Simple {
        match *self {
            SimplePred::CmpF64 { column, op, thr } => Simple { column: column@, op, thr },
        }
    }
}

impl SimplePred {
    /// The operator.
    pub fn op(&self) -> (r: BinaryOp)
        ensures
            r == self@.op,
    {
        match self {
            SimplePred::CmpF64 { op, .. } => *op,
        }
    }

    /// Recognises a simple comparison.
    pub fn from_expr<F: Fn(FloatOp) -> FloatReply>(expr: &Expr, f: &F) -> (r: Option<Self>)
        requires
            answers(*f),
        ensures
            forall|g: Floats| #[trigger]
                agrees(*f, g) ==> match r {
                    Some(p) => simple(*expr, g) == Some(p@),
                    None => simple(*expr, g) is None,
                },
    {
        match expr {
            Expr::Binary { op, left, right } => {
                let known: bool = match op {
                    BinaryOp::Gt
                    | BinaryOp::Gte
                    | BinaryOp::Lt
                    | BinaryOp::Lte
                    | BinaryOp::Eq
                    | BinaryOp::NotEq => true,
                    _ => false,
                };
                if !known {
                    return None;
                }
                match (&**left, &**right) {
                    (Expr::Column { name }, Expr::Literal(lit)) => match scalar_as_float(lit, f) {
                        Some(thr) => Some(
                            SimplePred::CmpF64 { column: name.clone(), op: *op, thr },
                        ),
                        None => None,
                    },
                    (Expr::Literal(lit), Expr::Column { name }) => match scalar_as_float(lit, f) {
                        Some(thr) => Some(
                            SimplePred::CmpF64 { column: name.clone(), op: flip(*op), thr },
                        ),
                        None => None,
                    },
                    _ => None,
                }
            },
            _ => None,
        }
    }
}

/// Numeric comparison; false where a NaN is involved, but for `NotEq`.
pub open spec fn float_compare(op: BinaryOp, a: u64, b: u64) -> bool {
    match op {
        BinaryOp::Gt => float_lt(b, a),
        BinaryOp::Gte => float_lt(b, a) || float_eq(a, b),
        BinaryOp::Lt => float_lt(a, b),
        BinaryOp::Lte => float_lt(a, b) || float_eq(a, b),
        BinaryOp::Eq => float_eq(a, b),
        BinaryOp::NotEq => !float_eq(a, b),
        _ => false,
    }
}

fn compare_floats(op: BinaryOp, a: u64, b: u64) -> (r: bool)
    ensures
        r == float_compare(op, a, b),
{
    match op {
        BinaryOp::Gt => is_float_lt(b, a),
        BinaryOp::Gte => is_float_lt(b, a) || is_float_eq(a, b),
        BinaryOp::Lt => is_float_lt(a, b),
        BinaryOp::Lte => is_float_lt(a, b) || is_float_eq(a, b),
        BinaryOp::Eq => is_float_eq(a, b),
        BinaryOp::NotEq => !is_float_eq(a, b),
        _ => false,
    }
}

/// Whether a row with this value of the predicate is kept: NULL drops it.
pub open spec fn keeps(v: Result<Val, Fault>) -> Result<bool, Fault> {
    match v {
        Ok(Val::Bool(b)) => Ok(b),
        Ok(Val::Null) => Ok(false),
        Ok(other) => Err(
            fault(ErrorCode::TypeMismatch, "filter must be bool, got "@ + type_of(other).name()),
        ),
        Err(f) => Err(f),
    }
}

fn keep(v: Result<Scalar, SparrowError>) -> (r: Result<bool, SparrowError>)
    ensures
        crate::model::outcome(r) == keeps(seen(v)),
{
    match v {
        Ok(Scalar::Bool(b)) => Ok(b),
        Ok(Scalar::Null) => Ok(false),
        Ok(other) => Err(
            SparrowError::new(
                ErrorCode::TypeMismatch,
                cat2("filter must be bool, got ", other.data_type().as_str()),
            ),
        ),
        Err(e) => Err(e),
    }
}

/// Whether the short cut takes columns of the type.
pub open spec fn number_column(t: DataType) -> bool {
    t == DataType::Float64 || t == DataType::Int64 || t == DataType::UInt64
}

/// The column that the short cut reads, where it applies.
pub open spec fn shortcut(e: Expr, fields: Seq<Field>, g: Floats) -> Option<int> {
    match simple(e, g) {
        None => None,
        Some(s) => if s.op == BinaryOp::Eq || s.op == BinaryOp::NotEq {
            None
        } else {
            match column(fields, s.column) {
                None => None,
                Some(i) => if number_column(fields[i].data_type) {
                    Some(i)
                } else {
                    None
                },
            }
        },
    }
}

/// Whether a row is kept. `b` is the bound predicate.
pub open spec fn mask_row(
    e: Expr,
    fields: Seq<Field>,
    b: BoundExpr,
    row: Seq<Val>,
    g: Floats,
) -> Result<bool, Fault> {
    match shortcut(e, fields, g) {
        None => keeps(bound_value(b, row, g)),
        Some(i) => {
            let s = simple(e, g)->0;
            if i >= row.len() {
                Ok(false)
            } else {
                match row[i] {
                    Val::Float64(v) => Ok(float_compare(s.op, v, s.thr)),
                    Val::Int64(_) => keeps(bound_value(b, row, g)),
                    Val::UInt64(_) => keeps(bound_value(b, row, g)),
                    Val::Null => Ok(false),
                    _ => Err(
                        fault(
                            ErrorCode::TypeMismatch,
                            "filter compare fast-path refuses non-numeric cells (must match eval)"@,
                        ),
                    ),
                }
            }
        },
    }
}

/// Which rows are kept; the fault of the first row that has one.
pub open spec fn mask(
    e: Expr,
    fields: Seq<Field>,
    b: BoundExpr,
    rows: Seq<Row>,
    g: Floats,
) -> Result<Seq<bool>, Fault>
    decreases rows.len(),
{
    if rows.len() == 0 {
        Ok(Seq::empty())
    } else {
        match mask(e, fields, b, rows.drop_last(), g) {
            Err(f) => Err(f),
            Ok(m) => match mask_row(e, fields, b, vals(rows.last().values@), g) {
                Err(f) => Err(f),
                Ok(k) => Ok(m.push(k)),
            },
        }
    }
}

proof fn lemma_mask_fault_stays(
    e: Expr,
    fields: Seq<Field>,
    b: BoundExpr,
    rows: Seq<Row>,
    k: int,
    g: Floats,
)
    requires
        0 <= k <= rows.len(),
        mask(e, fields, b, rows.take(k), g) is Err,
    ensures
        mask(e, fields, b, rows, g) == mask(e, fields, b, rows.take(k), g),
    decreases rows.len() - k,
{
    if k < rows.len() {
        assert(rows.take(k + 1).drop_last() == rows.take(k));
        lemma_mask_fault_stays(e, fields, b, rows, k + 1, g);
    } else {
        assert(rows.take(k) == rows);
    }
}

proof fn lemma_mask_same(
    e: Expr,
    fields: Seq<Field>,
    b: BoundExpr,
    c: BoundExpr,
    rows: Seq<Row>,
    g: Floats,
)
    requires
        binds(e, fields, b),
        binds(e, fields, c),
    ensures
        mask(e, fields, b, rows, g) == mask(e, fields, c, rows, g),
    decreases rows.len(),
{
    if rows.len() > 0 {
        lemma_mask_same(e, fields, b, c, rows.drop_last(), g);
        law_bindings_agree(e, fields, b, c, vals(rows.last().values@), g);
    }
}

/// A result with the mask and the error taken by what they hold.
pub open spec fn mask_seen(r: Result<Vec<bool>, SparrowError>) -> Result<Seq<bool>, Fault> {
    match r {
        Ok(m) => Ok(m@),
        Err(e) => Err(e@),
    }
}

/// Computes which rows a predicate keeps.
pub fn filter_mask<F: Fn(FloatOp) -> FloatReply>(
    pred: &Expr,
    schema: &Schema,
    rows: &[Row],
    f: &F,
) -> (r: Result<Vec<bool>, SparrowError>)
    requires
        answers(*f),
    ensures
        match bind_fault(*pred, schema.fields@) {
            Some(e) => mask_seen(r) == Err::<Seq<bool>, Fault>(e),
            None => forall|g: Floats, b: BoundExpr|
                #![trigger agrees(*f, g), binds(*pred, schema.fields@, b)]
                agrees(*f, g) && binds(*pred, schema.fields@, b) ==> mask_seen(r) == mask(
                    *pred,
                    schema.fields@,
                    b,
                    rows@,
                    g,
                ),
        },
{
    let bound: BoundExpr = match bind(pred, schema) {
        Ok(b) => b,
        Err(e) => {
            return Err(e);
        },
    };
    let mut fast: Option<(usize, BinaryOp, u64)> = None;
    match SimplePred::from_expr(pred, f) {
        Some(SimplePred::CmpF64 { column, op, thr }) => {
            if op != BinaryOp::Eq && op != BinaryOp::NotEq {
                match schema.index_of_name(column.as_str()) {
                    Some(i) => match schema.fields[i].data_type {
                        DataType::Float64 | DataType::Int64 | DataType::UInt64 => {
                            fast = Some((i, op, thr));
                        },
                        _ => {},
                    },
                    None => {},
                }
            }
        },
        None => {},
    }
    let mut out: Vec<bool> = Vec::new();
    let mut k: usize = 0;
    assert(rows@.take(0) == Seq::<Row>::empty());
    assert(out@ == Seq::<bool>::empty());
    while k < rows.len()
        invariant
            k <= rows.len(),
            answers(*f),
            bind_fault(*pred, schema.fields@) is None,
            binds(*pred, schema.fields@, bound),
            forall|g: Floats| #[trigger]
                agrees(*f, g) ==> match fast {
                    Some((i, op, thr)) => shortcut(*pred, schema.fields@, g) == Some(i as int)
                        && simple(*pred, g) is Some && simple(*pred, g)->0.op == op && simple(
                        *pred,
                        g,
                    )->0.thr == thr,
                    None => shortcut(*pred, schema.fields@, g) is None,
                },
            forall|g: Floats| #[trigger]
                agrees(*f, g) ==> mask(
                    *pred,
                    schema.fields@,
                    bound,
                    rows@.take(k as int),
                    g,
                ) == Ok::<Seq<bool>, Fault>(out@),
        decreases rows.len() - k,
    {
        let ghost before = out@;
        assert(rows@.take(k + 1).drop_last() == rows@.take(k as int));
        assert(rows@.take(k + 1).last() == rows@[k as int]);
        let row: &Vec<Scalar> = &rows[k].values;
        assert(vals(row@).len() == row.len());
        let kept: Result<bool, SparrowError> = match fast {
            None => keep(eval_bound(&bound, row.as_slice(), f)),
            Some((i, op, thr)) => {
                if i >= row.len() {
                    Ok(false)
                } else {
                    assert(vals(row@)[i as int] == row@[i as int]@);
                    match &row[i] {
                        Scalar::Float64(v) => Ok(compare_floats(op, *v, thr)),
                        Scalar::Int64(_) => keep(eval_bound(&bound, row.as_slice(), f)),
                        Scalar::UInt64(_) => keep(eval_bound(&bound, row.as_slice(), f)),
                        Scalar::Null => Ok(false),
                        _ => Err(
                            err(
                                ErrorCode::TypeMismatch,
                                "filter compare fast-path refuses non-numeric cells (must match eval)",
                            ),
                        ),
                    }
                }
            },
        };
        match kept {
            Ok(b) => {
                out.push(b);
                assert(out@ == before.push(b));
            },
            Err(e) => {
                proof {
                    assert forall|g: Floats, b: BoundExpr|
                        #![trigger agrees(*f, g), binds(*pred, schema.fields@, b)]
                        agrees(*f, g) && binds(*pred, schema.fields@, b) implies mask(
                        *pred,
                        schema.fields@,
                        b,
                        rows@,
                        g,
                    ) == Err::<Seq<bool>, Fault>(e@) by {
                        lemma_mask_fault_stays(
                            *pred,
                            schema.fields@,
                            bound,
                            rows@,
                            k + 1,
                            g,
                        );
                        lemma_mask_same(*pred, schema.fields@, bound, b, rows@, g);
                    }
                }
                return Err(e);
            },
        }
        k = k + 1;
    }
    assert(rows@.take(rows@.len() as int) == rows@);
    proof {
        assert forall|g: Floats, b: BoundExpr|
            #![trigger agrees(*f, g), binds(*pred, schema.fields@, b)]
            agrees(*f, g) && binds(*pred, schema.fields@, b) implies mask(
            *pred,
            schema.fields@,
            b,
            rows@,
            g,
        ) == Ok::<Seq<bool>, Fault>(out@) by {
            lemma_mask_same(*pred, schema.fields@, bound, b, rows@, g);
        }
    }
    Ok(out)
}

/// The cell is NULL or of the column's type.
pub open spec fn conforms(cell: Val, t: DataType) -> bool {
    cell is Null || type_of(cell) == t
}

/// The expression is a literal that is no number.
pub open spec fn nan_literal(e: Expr) -> bool {
    e matches Expr::Literal(s) && s@ is Float64 && nan(s@->Float64_0)
}

/// Nothing is compared with a literal that is no number.
pub open spec fn compares_numbers(e: Expr) -> bool {
    e matches Expr::Binary { left, right, .. } ==> !nan_literal(*left) && !nan_literal(*right)
}

/// The row has a cell for every column, each NULL or of its type, and none that
/// is no number.
pub open spec fn fits(fields: Seq<Field>, row: Seq<Val>) -> bool {
    row.len() >= fields.len() && forall|i: int|
        0 <= i < fields.len() ==> {
            &&& conforms(#[trigger] row[i], fields[i].data_type)
            &&& !(row[i] is Float64 && nan(row[i]->Float64_0))
        }
}

proof fn lemma_row_matches_eval(
    e: Expr,
    fields: Seq<Field>,
    b: BoundExpr,
    row: Seq<Val>,
    g: Floats,
)
    requires
        binds(e, fields, b),
        converts(g),
        compares_numbers(e),
        fits(fields, row),
    ensures
        alike(mask_row(e, fields, b, row, g), keeps(value(e, fields, row, g))),
{
    law_bound_matches_unbound(e, fields, b, row, g);
    match shortcut(e, fields, g) {
        None => {},
        Some(i) => {
            let s = simple(e, g)->0;
            lemma_column(fields, s.column);
            let left = *e->left;
            let right = *e->right;
            assert(value(left, fields, row, g) is Ok);
            assert(value(right, fields, row, g) is Ok);
            assert(conforms(row[i], fields[i].data_type));
            assert(!nan(s.thr));
        },
    }
}

/// On rows that fit the schema, and where no NaN is compared, the filter keeps
/// exactly the rows on which the predicate is true, and fails only with the code
/// of the first row on which the predicate fails or is neither true, false nor
/// NULL.
pub proof fn law_filter_matches_eval(
    e: Expr,
    fields: Seq<Field>,
    b: BoundExpr,
    rows: Seq<Row>,
    g: Floats,
)
    requires
        binds(e, fields, b),
        converts(g),
        compares_numbers(e),
        forall|i: int| 0 <= i < rows.len() ==> fits(fields, vals((#[trigger] rows[i]).values@)),
    ensures
        match mask(e, fields, b, rows, g) {
            Ok(m) => m.len() == rows.len() && forall|i: int|
                0 <= i < rows.len() ==> #[trigger] m[i] == (value(
                    e,
                    fields,
                    vals(rows[i].values@),
                    g,
                ) == Ok::<Val, Fault>(Val::Bool(true))),
            Err(f) => exists|i: int|
                0 <= i < rows.len() && (keeps(
                    value(e, fields, vals((#[trigger] rows[i]).values@), g),
                ) matches Err(x) && x.code == f.code) && forall|j: int|
                    0 <= j < i ==> keeps(
                        value(e, fields, vals((#[trigger] rows[j]).values@), g),
                    ) is Ok,
        },
    decreases rows.len(),
{
    if rows.len() > 0 {
        let front = rows.drop_last();
        law_filter_matches_eval(e, fields, b, front, g);
        let n = front.len() as int;
        lemma_row_matches_eval(e, fields, b, vals(rows[n].values@), g);
        match mask(e, fields, b, front, g) {
            Err(_) => {
                let i = choose|i: int|
                    0 <= i < front.len() && (keeps(
                        value(e, fields, vals((#[trigger] front[i]).values@), g),
                    ) matches Err(x) && x.code == mask(e, fields, b, front, g)->Err_0.code)
                        && forall|j: int|
                        0 <= j < i ==> keeps(
                            value(e, fields, vals((#[trigger] front[j]).values@), g),
                        ) is Ok;
                assert(rows[i] == front[i]);
                assert forall|j: int| 0 <= j < i implies keeps(
                    value(e, fields, vals((#[trigger] rows[j]).values@), g),
                ) is Ok by {
                    assert(rows[j] == front[j]);
                }
            },
            Ok(m) => {
                assert forall|j: int| 0 <= j < n implies #[trigger] m[j] == (value(
                    e,
                    fields,
                    vals(rows[j].values@),
                    g,
                ) == Ok::<Val, Fault>(Val::Bool(true))) by {
                    assert(rows[j] == front[j]);
                }
                lemma_front_is_kept(e, fields, b, front, g);
                assert forall|j: int| 0 <= j < n implies keeps(
                    value(e, fields, vals((#[trigger] rows[j]).values@), g),
                ) is Ok by {
                    assert(rows[j] == front[j]);
                }
                assert(rows[n] == rows.last());
            },
        }
    }
}

proof fn lemma_front_is_kept(
    e: Expr,
    fields: Seq<Field>,
    b: BoundExpr,
    rows: Seq<Row>,
    g: Floats,
)
    requires
        binds(e, fields, b),
        converts(g),
        compares_numbers(e),
        forall|i: int| 0 <= i < rows.len() ==> fits(fields, vals((#[trigger] rows[i]).values@)),
        mask(e, fields, b, rows, g) is Ok,
    ensures
        forall|j: int|
            0 <= j < rows.len() ==> keeps(
                value(e, fields, vals((#[trigger] rows[j]).values@), g),
            ) is Ok,
    decreases rows.len(),
{
    if rows.len() > 0 {
        let front = rows.drop_last();
        lemma_front_is_kept(e, fields, b, front, g);
        let n = front.len() as int;
        lemma_row_matches_eval(e, fields, b, vals(rows[n].values@), g);
        assert forall|j: int| 0 <= j < rows.len() implies keeps(
            value(e, fields, vals((#[trigger] rows[j]).values@), g),
        ) is Ok by {
            if j < n {
                assert(rows[j] == front[j]);
            }
        }
    }
}

} // verus!
