//! Expressions: evaluation, binding, typing and filters.

use sparrow::expr::bind::{bind, eval_bound, BoundExpr};
use sparrow::expr::eval::{
    cast, check_call_arity, dynamic_from_scalar, eval, eval_call_values, eval_int_arith,
    eval_logic, rank_scalars, scalars_eq, Rank,
};
use sparrow::expr::float::{float_abs, is_float_eq, is_float_lt, is_nan, FloatOp, FloatReply};
use sparrow::expr::infer::{infer_nullable, infer_type};
use sparrow::expr::kernels::{filter_mask, SimplePred};
use sparrow::expr::{BinaryOp, Expr};
use sparrow::model::{DataType, DynamicValue, ErrorCode, Field, Row, Scalar, Schema};

fn floats(op: FloatOp) -> FloatReply {
    let of = f64::from_bits;
    match op {
        FloatOp::Add(a, b) => FloatReply::Bits((of(a) + of(b)).to_bits()),
        FloatOp::Sub(a, b) => FloatReply::Bits((of(a) - of(b)).to_bits()),
        FloatOp::Mul(a, b) => FloatReply::Bits((of(a) * of(b)).to_bits()),
        FloatOp::Div(a, b) => FloatReply::Bits((of(a) / of(b)).to_bits()),
        FloatOp::FromInt(a) => FloatReply::Bits((a as f64).to_bits()),
        FloatOp::FromUInt(a) => FloatReply::Bits((a as f64).to_bits()),
        FloatOp::ToInt(a) => FloatReply::Int(of(a) as i64),
        FloatOp::Parse(s) => match s.parse::<f64>() {
            Ok(v) => FloatReply::Bits(v.to_bits()),
            Err(_) => FloatReply::Invalid,
        },
    }
}

fn float(v: f64) -> Scalar {
    Scalar::Float64(v.to_bits())
}

fn field(id: u16, name: &str, data_type: DataType, nullable: bool) -> Field {
    Field { id, name: name.to_string(), data_type, nullable }
}

fn schema() -> Schema {
    Schema {
        id: 1,
        fields: vec![
            field(1, "temp", DataType::Float64, true),
            field(2, "payload", DataType::Dynamic, true),
        ],
    }
}

fn wide_schema() -> Schema {
    let fields = (0..32)
        .map(|i| field(i as u16 + 1, &format!("c{i}"), DataType::Int64, false))
        .collect();
    Schema { id: 1, fields }
}

fn nameful_schema() -> Schema {
    Schema {
        id: 1,
        fields: vec![
            field(1, "id", DataType::Utf8, false),
            field(2, "temp", DataType::Float64, true),
        ],
    }
}

fn one_column(name: &str, data_type: DataType, nullable: bool) -> Schema {
    Schema { id: 1, fields: vec![field(1, name, data_type, nullable)] }
}

fn col(name: &str) -> Expr {
    Expr::Column { name: name.to_string() }
}

fn lit(v: Scalar) -> Expr {
    Expr::Literal(v)
}

fn bin(op: BinaryOp, left: Expr, right: Expr) -> Expr {
    Expr::Binary { op, left: Box::new(left), right: Box::new(right) }
}

fn call(name: &str, args: Vec<Expr>) -> Expr {
    Expr::Call { name: name.to_string(), args }
}

fn empty_row() -> Vec<Scalar> {
    vec![float(0.0), Scalar::Dynamic(DynamicValue::Null)]
}

#[test]
fn filter_and_dynamic_extract() {
    let schema = schema();
    let payload = DynamicValue::Object(vec![(
        "humidity".to_string(),
        DynamicValue::Float64(40.0f64.to_bits()),
    )]);
    let row = vec![float(27.5), Scalar::Dynamic(payload)];
    let pred = bin(BinaryOp::Gt, col("temp"), lit(float(25.0)));
    assert_eq!(eval(&pred, &schema, &row, &floats).unwrap(), Scalar::Bool(true));
    let extract = Expr::DynamicGet {
        expr: Box::new(col("payload")),
        key: "humidity".to_string(),
    };
    assert_eq!(eval(&extract, &schema, &row, &floats).unwrap(), float(40.0));
}

#[test]
fn rejects_dynamic_arithmetic_without_cast() {
    let schema = schema();
    let row = vec![float(1.0), Scalar::Dynamic(DynamicValue::Int64(3))];
    let expr = bin(BinaryOp::Add, col("payload"), lit(Scalar::Int64(1)));
    assert_eq!(
        eval(&expr, &schema, &row, &floats).unwrap_err().code,
        ErrorCode::TypeMismatch
    );
}

#[test]
fn r06_int_add_does_not_go_through_f64() {
    let expr = bin(
        BinaryOp::Add,
        lit(Scalar::Int64(9_007_199_254_740_993)),
        lit(Scalar::Int64(1)),
    );
    assert_eq!(
        eval(&expr, &schema(), &empty_row(), &floats).unwrap(),
        Scalar::Int64(9_007_199_254_740_994)
    );
}

#[test]
fn r06_checked_int_overflow() {
    let expr = bin(BinaryOp::Add, lit(Scalar::Int64(i64::MAX)), lit(Scalar::Int64(1)));
    assert_eq!(
        eval(&expr, &schema(), &empty_row(), &floats).unwrap_err().code,
        ErrorCode::IntegerOverflow
    );
}

#[test]
fn r07_empty_abs_and_coalesce_are_errors() {
    let schema = schema();
    let row = empty_row();
    assert_eq!(
        eval(&call("abs", vec![]), &schema, &row, &floats).unwrap_err().code,
        ErrorCode::InvalidArgument
    );
    assert_eq!(
        eval(&call("coalesce", vec![]), &schema, &row, &floats).unwrap_err().code,
        ErrorCode::InvalidArgument
    );
}

#[test]
fn r07_recursive_not_is_null() {
    let schema = schema();
    let row = vec![Scalar::Null, Scalar::Dynamic(DynamicValue::Null)];
    let expr = Expr::Not(Box::new(Expr::IsNull(Box::new(col("temp")))));
    assert_eq!(eval(&expr, &schema, &row, &floats).unwrap(), Scalar::Bool(false));
    let expr = Expr::IsNotNull(Box::new(Expr::IsNull(Box::new(col("temp")))));
    assert_eq!(eval(&expr, &schema, &row, &floats).unwrap(), Scalar::Bool(true));
}

#[test]
fn p0_7_int_compare_beyond_2_pow_53() {
    let schema = schema();
    let row = empty_row();
    let a = 9_007_199_254_740_993i64;
    let gt = bin(BinaryOp::Gt, lit(Scalar::Int64(a + 1)), lit(Scalar::Int64(a)));
    assert_eq!(eval(&gt, &schema, &row, &floats).unwrap(), Scalar::Bool(true));
    let eq = bin(BinaryOp::Eq, lit(Scalar::Int64(a)), lit(Scalar::Int64(a + 1)));
    assert_eq!(eval(&eq, &schema, &row, &floats).unwrap(), Scalar::Bool(false));
    let nan_eq = bin(BinaryOp::Eq, lit(float(f64::NAN)), lit(float(1.0)));
    assert_eq!(
        eval(&nan_eq, &schema, &row, &floats).unwrap(),
        Scalar::Bool(false),
        "Eq uses IEEE: NaN equals nothing (not unwrap_or Equal)"
    );
    let nan_lt = bin(BinaryOp::Lt, lit(float(f64::NAN)), lit(float(1.0)));
    assert_eq!(
        eval(&nan_lt, &schema, &row, &floats).unwrap_err().code,
        ErrorCode::InvalidArgument,
        "ordered compare must not treat NaN as Equal"
    );
    let tmin = call(
        "least",
        vec![lit(Scalar::TimestampMicrosUTC(9)), lit(Scalar::TimestampMicrosUTC(3))],
    );
    assert_eq!(
        eval(&tmin, &schema, &row, &floats).unwrap(),
        Scalar::TimestampMicrosUTC(3)
    );
    let tmax = call(
        "greatest",
        vec![lit(Scalar::TimestampMicrosUTC(9)), lit(Scalar::TimestampMicrosUTC(3))],
    );
    assert_eq!(
        eval(&tmax, &schema, &row, &floats).unwrap(),
        Scalar::TimestampMicrosUTC(9)
    );
}

#[test]
fn p0_9_float_int_arith_and_uint_infer_match_eval() {
    let schema = schema();
    let row = empty_row();
    let add = bin(BinaryOp::Add, lit(float(1.5)), lit(Scalar::Int64(2)));
    assert_eq!(infer_type(&add, &schema).unwrap(), DataType::Float64);
    assert_eq!(
        eval(&add, &schema, &row, &floats).unwrap(),
        float(3.5),
        "Float64+Int64 must stay Float64, not truncate to Int64"
    );
    let uadd = bin(BinaryOp::Add, lit(Scalar::UInt64(7)), lit(Scalar::UInt64(9)));
    assert_eq!(infer_type(&uadd, &schema).unwrap(), DataType::UInt64);
    assert_eq!(eval(&uadd, &schema, &row, &floats).unwrap(), Scalar::UInt64(16));
    let nf = call("nullif", vec![lit(Scalar::Int64(4)), lit(Scalar::Int64(4))]);
    assert_eq!(infer_type(&nf, &schema).unwrap(), DataType::Int64);
    assert_eq!(eval(&nf, &schema, &row, &floats).unwrap(), Scalar::Null);
    let gr = call("greatest", vec![lit(Scalar::Int64(1)), lit(Scalar::Int64(8))]);
    assert_eq!(infer_type(&gr, &schema).unwrap(), DataType::Int64);
    assert_eq!(eval(&gr, &schema, &row, &floats).unwrap(), Scalar::Int64(8));
}

#[test]
fn values_have_the_inferred_type() {
    let schema = schema();
    let get = || Expr::DynamicGet { expr: Box::new(col("payload")), key: "n".to_string() };
    let as_int = |e| Expr::Cast { expr: Box::new(e), target: DataType::Int64 };
    let sum = bin(BinaryOp::Add, as_int(get()), lit(Scalar::Int64(2)));
    let both = call("greatest", vec![sum, call("abs", vec![lit(Scalar::Int64(-9))])]);
    let whole = bin(BinaryOp::Mul, call("coalesce", vec![lit(Scalar::Int64(3)), both]), col("temp"));
    let object = DynamicValue::Object(vec![("n".to_string(), DynamicValue::Int64(5))]);
    let row = vec![float(1.5), Scalar::Dynamic(object)];
    for (e, data_type, shown) in [
        (whole, DataType::Float64, float(4.5)),
        (as_int(get()), DataType::Int64, Scalar::Int64(5)),
        (bin(BinaryOp::Gt, col("temp"), lit(float(1.0))), DataType::Bool, Scalar::Bool(true)),
        (call("length", vec![lit(Scalar::utf8("abc"))]), DataType::Int64, Scalar::Int64(3)),
    ] {
        assert_eq!(infer_type(&e, &schema).unwrap(), data_type);
        let v = eval(&e, &schema, &row, &floats).unwrap();
        assert_eq!(v.data_type(), data_type);
        assert_eq!(v, shown);
    }
    assert_eq!(infer_type(&get(), &schema).unwrap(), DataType::Dynamic);
    assert_eq!(eval(&get(), &schema, &row, &floats).unwrap(), Scalar::Int64(5));
}

#[test]
fn r4_bad_arity_fails_at_bind_without_any_rows() {
    for (name, argc) in [("UPPER", 0), ("upper", 2), ("ABS", 2), ("COALESCE", 0), ("NULLIF", 1)] {
        let args = (0..argc).map(|_| lit(Scalar::Null)).collect();
        let expression = call(name, args);
        assert_eq!(
            bind(&expression, &wide_schema()).unwrap_err().code,
            ErrorCode::InvalidArgument
        );
    }
}

#[test]
fn r3_short_row_fails_closed_instead_of_null() {
    let error =
        eval_bound(&BoundExpr::Column { index: 1 }, &[Scalar::Int64(1)], &floats).unwrap_err();
    assert_eq!(error.code, ErrorCode::Internal);
}

#[test]
fn r3_function_name_canonicalized_at_bind() {
    let expression = call("UPPER", vec![lit(Scalar::utf8("a"))]);
    let compiled = bind(&expression, &wide_schema()).unwrap();
    let BoundExpr::Call { name, .. } = &compiled else { panic!("call expected") };
    assert_eq!(name, "upper");
    assert_eq!(eval_bound(&compiled, &[], &floats).unwrap(), Scalar::utf8("A"));
}

#[test]
fn p2_30_bind_resolves_column_index() {
    let schema = wide_schema();
    let expr = bin(BinaryOp::Gt, col("c31"), lit(Scalar::Int64(10)));
    let bound = bind(&expr, &schema).unwrap();
    match &bound {
        BoundExpr::Binary { left, right, .. } => {
            assert!(matches!(left.as_ref(), BoundExpr::Column { index: 31 }));
            assert!(matches!(right.as_ref(), BoundExpr::Literal(Scalar::Int64(10))));
        }
        other => panic!("expected bound binary, got {other:?}"),
    }
}

#[test]
fn p2_30_eval_bound_matches_eval_without_schema() {
    let schema = wide_schema();
    let mut row: Vec<Scalar> = (0..32).map(|_| Scalar::Int64(0)).collect();
    row[31] = Scalar::Int64(40);
    let expr = bin(BinaryOp::Gt, col("c31"), lit(Scalar::Int64(10)));
    let bound = bind(&expr, &schema).unwrap();
    let via_bound = eval_bound(&bound, &row, &floats).unwrap();
    let via_eval = eval(&expr, &schema, &row, &floats).unwrap();
    assert_eq!(via_bound, via_eval);
    assert_eq!(via_bound, Scalar::Bool(true));
    // Bound column is an index: a renamed schema cannot be consulted.
    let bound_col = BoundExpr::Column { index: 31 };
    assert_eq!(eval_bound(&bound_col, &row, &floats).unwrap(), Scalar::Int64(40));
}

#[test]
fn p2_30_bind_unknown_column_fails() {
    let schema = wide_schema();
    let err = bind(&col("missing"), &schema).unwrap_err();
    assert_eq!(err.code, ErrorCode::InvalidArgument);
    assert!(err.message.contains("missing"));
}

#[test]
fn p3_46_project_nullable_follows_input_and_expr() {
    let s = nameful_schema();
    let id = col("id");
    assert!(!infer_nullable(&id, &s).unwrap(), "non-null column stays non-null");
    let temp = col("temp");
    assert!(infer_nullable(&temp, &s).unwrap(), "nullable column stays nullable");
    let one = lit(Scalar::Int64(1));
    assert!(!infer_nullable(&one, &s).unwrap());
    let try_cast = Expr::TryCast { expr: Box::new(id), target: DataType::Int64 };
    assert!(infer_nullable(&try_cast, &s).unwrap());
    let is_null = Expr::IsNull(Box::new(temp));
    assert!(!infer_nullable(&is_null, &s).unwrap());
}

#[test]
fn stride_matches_eval_for_gt() {
    let schema = one_column("temp", DataType::Float64, true);
    let rows = vec![
        Row { values: vec![float(10.0)] },
        Row { values: vec![float(30.0)] },
        Row { values: vec![Scalar::Null] },
    ];
    let pred = bin(BinaryOp::Gt, col("temp"), lit(float(25.0)));
    assert_eq!(
        filter_mask(&pred, &schema, &rows, &floats).unwrap(),
        vec![false, true, false]
    );
    assert!(SimplePred::from_expr(&pred, &floats).is_some());
}

fn mask_by_eval(pred: &Expr, schema: &Schema, rows: &[Row]) -> Vec<bool> {
    rows.iter()
        .map(|r| match eval(pred, schema, &r.values, &floats).unwrap() {
            Scalar::Bool(v) => v,
            _ => false,
        })
        .collect()
}

#[test]
fn r06_fast_filter_eq_matches_evaluator_for_large_ints() {
    let schema = one_column("id", DataType::Int64, false);
    let big = 9_007_199_254_740_993i64;
    let rows = vec![
        Row { values: vec![Scalar::Int64(big)] },
        Row { values: vec![Scalar::Int64(big + 1)] },
    ];
    let pred = bin(BinaryOp::Eq, col("id"), lit(Scalar::Int64(big)));
    let mask = filter_mask(&pred, &schema, &rows, &floats).unwrap();
    let evaled = mask_by_eval(&pred, &schema, &rows);
    assert_eq!(mask, evaled);
    assert_eq!(mask, vec![true, false]);
}

#[test]
fn p0_6_filter_mask_matches_eval_on_utf8() {
    let schema = one_column("name", DataType::Utf8, false);
    let rows = vec![
        Row { values: vec![Scalar::utf8("ok")] },
        Row { values: vec![Scalar::utf8("no")] },
    ];
    let pred = bin(BinaryOp::Eq, col("name"), lit(Scalar::utf8("ok")));
    let mask = filter_mask(&pred, &schema, &rows, &floats).unwrap();
    let evaled = mask_by_eval(&pred, &schema, &rows);
    assert_eq!(mask, evaled);
    assert_eq!(mask, vec![true, false]);

    let bad = bin(BinaryOp::Gt, col("name"), lit(float(1.0)));
    let mask_err = filter_mask(&bad, &schema, &rows, &floats).unwrap_err();
    let eval_err = eval(&bad, &schema, &rows[0].values, &floats).unwrap_err();
    assert_eq!(mask_err.code, eval_err.code);
    assert_eq!(mask_err.code, ErrorCode::TypeMismatch);
}

#[test]
fn division_by_zero_is_null_and_truncates_towards_zero() {
    assert_eq!(eval_int_arith(BinaryOp::Div, 7, 0).unwrap(), Scalar::Null);
    assert_eq!(eval_int_arith(BinaryOp::Div, -7, 2).unwrap(), Scalar::Int64(-3));
    assert_eq!(
        eval_int_arith(BinaryOp::Div, i64::MIN, -1).unwrap_err().message,
        "checked integer arithmetic overflow"
    );
    let float_div = bin(BinaryOp::Div, lit(float(1.0)), lit(float(-0.0)));
    assert_eq!(eval(&float_div, &schema(), &empty_row(), &floats).unwrap(), Scalar::Null);
    let under = bin(BinaryOp::Sub, lit(Scalar::UInt64(1)), lit(Scalar::UInt64(2)));
    let e = eval(&under, &schema(), &empty_row(), &floats).unwrap_err();
    assert_eq!(e.code, ErrorCode::IntegerOverflow);
    assert_eq!(e.message, "checked unsigned integer arithmetic overflow");
}

#[test]
fn logic_has_three_values() {
    let t = Scalar::Bool(true);
    let f = Scalar::Bool(false);
    assert_eq!(eval_logic(BinaryOp::And, &f, &Scalar::Null).unwrap(), Scalar::Bool(false));
    assert_eq!(eval_logic(BinaryOp::And, &t, &Scalar::Null).unwrap(), Scalar::Null);
    assert_eq!(eval_logic(BinaryOp::Or, &t, &Scalar::Null).unwrap(), Scalar::Bool(true));
    assert_eq!(eval_logic(BinaryOp::Or, &f, &Scalar::Null).unwrap(), Scalar::Null);
    assert_eq!(
        eval_logic(BinaryOp::And, &t, &Scalar::Int64(1)).unwrap_err().message,
        "logical op expects bool"
    );
}

#[test]
fn casts_convert_or_fail() {
    let of = |v: Scalar, t: DataType| cast(&v, t, false, &floats);
    assert_eq!(of(Scalar::Int64(-4), DataType::Utf8).unwrap(), Scalar::utf8("-4"));
    assert_eq!(of(Scalar::utf8("+12"), DataType::Int64).unwrap(), Scalar::Int64(12));
    assert_eq!(of(Scalar::utf8("1.5"), DataType::Float64).unwrap(), float(1.5));
    assert_eq!(of(float(-2.9), DataType::Int64).unwrap(), Scalar::Int64(-2));
    assert_eq!(of(Scalar::UInt64(5), DataType::Int64).unwrap(), Scalar::Int64(5));
    assert_eq!(
        of(Scalar::utf8("x"), DataType::Int64).unwrap_err().message,
        "cannot CAST utf8 'x' to int64"
    );
    assert_eq!(
        of(Scalar::Int64(-1), DataType::UInt64).unwrap_err().message,
        "cannot CAST int64 to uint64"
    );
    assert_eq!(cast(&Scalar::utf8("x"), DataType::Int64, true, &floats).unwrap(), Scalar::Null);
    assert_eq!(
        dynamic_from_scalar(&Scalar::TimestampMicrosUTC(7)),
        DynamicValue::Int64(7)
    );
}

#[test]
fn builtins_give_their_values() {
    let of = |name: &str, vs: Vec<Scalar>| eval_call_values(name, &vs, &floats);
    assert_eq!(of("abs", vec![Scalar::Int64(-3)]).unwrap(), Scalar::Int64(3));
    assert_eq!(of("abs", vec![float(-1.5)]).unwrap(), float(1.5));
    assert_eq!(
        of("abs", vec![Scalar::Int64(i64::MIN)]).unwrap_err().code,
        ErrorCode::IntegerOverflow
    );
    assert_eq!(of("lower", vec![Scalar::utf8("AbC")]).unwrap(), Scalar::utf8("abc"));
    assert_eq!(of("length", vec![Scalar::utf8("né")]).unwrap(), Scalar::Int64(2));
    assert_eq!(
        of("coalesce", vec![Scalar::Null, Scalar::Int64(2)]).unwrap(),
        Scalar::Int64(2)
    );
    assert_eq!(
        of("nullif", vec![Scalar::Int64(1), Scalar::Int64(2)]).unwrap(),
        Scalar::Int64(1)
    );
    let e = of("nope", vec![]).unwrap_err();
    assert_eq!(e.code, ErrorCode::FeatureUnavailable);
    assert_eq!(e.message, "unknown function 'nope'");
    assert_eq!(
        check_call_arity("abs", 2).unwrap_err().message,
        "abs requires 1 argument, got 2"
    );
    assert!(check_call_arity("length", 1).is_ok());
}

#[test]
fn values_are_ranked_and_compared() {
    assert_eq!(
        rank_scalars(&Scalar::Int64(1), &Scalar::UInt64(2), &floats).unwrap(),
        Rank::Less
    );
    assert_eq!(
        rank_scalars(&Scalar::utf8("b"), &Scalar::utf8("a"), &floats).unwrap(),
        Rank::Greater
    );
    assert!(scalars_eq(&Scalar::Int64(3), &Scalar::UInt64(3)));
    assert!(!scalars_eq(&Scalar::Int64(-1), &Scalar::UInt64(u64::MAX)));
}

#[test]
fn float_order_agrees_with_the_machine() {
    let values = [0.0f64, -0.0, 1.0, -1.0, 0.5, f64::INFINITY, f64::NEG_INFINITY, f64::NAN, 1e-310];
    for a in values {
        for b in values {
            assert_eq!(is_float_lt(a.to_bits(), b.to_bits()), a < b);
            assert_eq!(is_float_eq(a.to_bits(), b.to_bits()), a == b);
        }
        assert_eq!(is_nan(a.to_bits()), a.is_nan());
    }
    assert_eq!(float_abs((-2.5f64).to_bits()), 2.5f64.to_bits());
}

#[test]
fn binding_does_not_change_what_an_expression_gives() {
    let schema = nameful_schema();
    let rows = [
        vec![Scalar::utf8("a"), float(3.0)],
        vec![Scalar::utf8("b"), Scalar::Null],
    ];
    let exprs = [
        bin(BinaryOp::Add, col("temp"), lit(Scalar::Int64(1))),
        call("upper", vec![col("id")]),
        bin(BinaryOp::Lt, col("id"), lit(Scalar::Int64(1))),
    ];
    for e in &exprs {
        let first = bind(e, &schema).unwrap();
        let second = bind(e, &schema).unwrap();
        for row in &rows {
            let plain = eval(e, &schema, row, &floats);
            let bound = eval_bound(&first, row, &floats);
            let again = eval_bound(&second, row, &floats);
            match (plain, bound, again) {
                (Ok(a), Ok(b), Ok(c)) => {
                    assert_eq!(a, b);
                    assert_eq!(b, c);
                }
                (Err(a), Err(b), Err(c)) => {
                    assert_eq!(a.message, b.message);
                    assert_eq!(b.message, c.message);
                }
                other => panic!("disagreement: {other:?}"),
            }
        }
    }
}

#[test]
fn what_cannot_be_bound_cannot_be_evaluated() {
    let schema = nameful_schema();
    let row = vec![Scalar::utf8("a"), float(3.0)];
    let e = call("nullif", vec![col("id")]);
    assert!(bind(&e, &schema).is_err());
    assert!(eval(&e, &schema, &row, &floats).is_err());
}

#[test]
fn inferred_types_are_the_types_of_values() {
    let schema = schema();
    let row = empty_row();
    for (l, r, t) in [
        (Scalar::Int64(2), Scalar::Int64(3), DataType::Int64),
        (Scalar::UInt64(2), Scalar::UInt64(3), DataType::UInt64),
        (float(2.0), Scalar::Int64(3), DataType::Float64),
    ] {
        let e = bin(BinaryOp::Mul, lit(l), lit(r));
        assert_eq!(infer_type(&e, &schema).unwrap(), t);
        assert_eq!(eval(&e, &schema, &row, &floats).unwrap().data_type(), t);
    }
}

#[test]
fn an_expression_that_is_not_nullable_is_not_null() {
    let schema = nameful_schema();
    let row = vec![Scalar::utf8("a"), Scalar::Null];
    let e = Expr::IsNull(Box::new(col("temp")));
    assert!(!infer_nullable(&e, &schema).unwrap());
    assert_eq!(eval(&e, &schema, &row, &floats).unwrap(), Scalar::Bool(true));
}

#[test]
fn a_division_may_be_null_unless_its_divisor_is_known() {
    let schema = nameful_schema();
    let row = vec![Scalar::utf8("a"), Scalar::Null];
    let div = |r: Scalar| bin(BinaryOp::Div, lit(Scalar::Int64(1)), lit(r));
    for zero in [Scalar::Int64(0), Scalar::UInt64(0), float(0.0), float(-0.0)] {
        let e = div(zero);
        assert_eq!(eval(&e, &schema, &row, &floats).unwrap(), Scalar::Null);
        assert!(infer_nullable(&e, &schema).unwrap());
    }
    for other in [Scalar::Int64(2), Scalar::UInt64(2), float(0.5)] {
        let e = div(other);
        assert_ne!(eval(&e, &schema, &row, &floats).unwrap(), Scalar::Null);
        assert!(!infer_nullable(&e, &schema).unwrap());
    }
    let by_id = bin(BinaryOp::Div, lit(Scalar::Int64(1)), col("id"));
    assert!(infer_nullable(&by_id, &schema).unwrap());
    let unknown = bin(BinaryOp::Div, lit(Scalar::Int64(1)), col("nope"));
    assert!(infer_nullable(&unknown, &schema).is_err());
}

#[test]
fn tags_name_operators() {
    assert_eq!(BinaryOp::NotEq.as_tag(), "neq");
    assert_eq!(BinaryOp::Add.as_tag(), "add");
}
