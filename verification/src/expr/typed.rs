//! What is inferred of a whole expression holds of its values.

use super::eval::{arithmetic, extreme, first_present, value, values};
use super::float::Floats;
use super::infer::{inferred, law_arithmetic_has_the_inferred_type, lemma_values_len};
use super::kernels::conforms;
use super::Expr;
use crate::model::{lemma_column, type_of, DataType, Fault, Field, Val};
use crate::text::lowered;
use vstd::prelude::*;

verus! {

/// A cell of the row is NULL or of the type of its column.
pub open spec fn typed_row(fields: Seq<Field>, row: Seq<Val>) -> bool {
    forall|i: int|
        0 <= i < fields.len() && i < row.len() ==> conforms(
            #[trigger] row[i],
            fields[i].data_type,
        )
}

/// Whether the types of the parts settle the type of the value. What is taken out
/// of a dynamic value has a type of its own; and where one of several arguments
/// is chosen, they have to be of one type.
pub open spec fn settled(e: Expr, fields: Seq<Field>) -> bool
    decreases e,
{
    match e {
        Expr::Binary { op, left, right } => arithmetic(op) ==> settled(*left, fields) && settled(
            *right,
            fields,
        ),
        Expr::Call { name, args } => {
            let n = lowered(name@);
            if args@.len() == 0 {
                true
            } else if n == "abs"@ || n == "nullif"@ {
                settled(args@[0], fields)
            } else if n == "coalesce"@ || n == "greatest"@ || n == "least"@ {
                match inferred(args@[0], fields) {
                    Ok(t) => all_settled(args@, t, fields),
                    Err(_) => true,
                }
            } else {
                true
            }
        },
        Expr::DynamicGet { .. } => false,
        _ => true,
    }
}

/// Whether all of a list are settled to be of the type, or always NULL.
pub open spec fn all_settled(args: Seq<Expr>, t: DataType, fields: Seq<Field>) -> bool
    decreases args,
{
    if args.len() == 0 {
        true
    } else {
        &&& all_settled(args.drop_last(), t, fields)
        &&& settled(args.last(), fields)
        &&& inferred(args.last(), fields) == Ok::<DataType, Fault>(t) || inferred(
            args.last(),
            fields,
        ) == Ok::<DataType, Fault>(DataType::Null)
    }
}

proof fn lemma_first_is_one(vs: Seq<Val>, t: DataType)
    requires
        forall|i: int| 0 <= i < vs.len() ==> conforms(#[trigger] vs[i], t),
    ensures
        conforms(first_present(vs), t),
    decreases vs.len(),
{
    if vs.len() > 0 && vs[0] is Null {
        let rest = vs.skip(1);
        assert forall|i: int| 0 <= i < rest.len() implies conforms(#[trigger] rest[i], t) by {
            assert(rest[i] == vs[i + 1]);
        }
        lemma_first_is_one(rest, t);
    }
}

proof fn lemma_extreme_is_one(vs: Seq<Val>, t: DataType, greatest: bool, g: Floats)
    requires
        forall|i: int| 0 <= i < vs.len() ==> conforms(#[trigger] vs[i], t),
    ensures
        extreme(vs, greatest, g) matches Ok(Some(v)) ==> conforms(v, t),
    decreases vs.len(),
{
    if vs.len() > 0 {
        let front = vs.drop_last();
        assert forall|i: int| 0 <= i < front.len() implies conforms(#[trigger] front[i], t) by {
            assert(front[i] == vs[i]);
        }
        lemma_extreme_is_one(front, t, greatest, g);
        assert(conforms(vs[vs.len() - 1], t));
    }
}

/// All values of a list of one type are of that type, or NULL.
proof fn lemma_values_settled(
    args: Seq<Expr>,
    t: DataType,
    fields: Seq<Field>,
    row: Seq<Val>,
    g: Floats,
)
    requires
        typed_row(fields, row),
        all_settled(args, t, fields),
    ensures
        values(args, fields, row, g) matches Ok(vs) ==> forall|i: int|
            0 <= i < vs.len() ==> conforms(#[trigger] vs[i], t),
    decreases args, 0nat,
{
    if args.len() > 0 {
        lemma_values_settled(args.drop_last(), t, fields, row, g);
        law_value_has_the_inferred_type(args.last(), fields, row, g);
    }
}

/// The names of the builtins differ.
proof fn lemma_names_differ()
    ensures
        "abs"@ != "lower"@ && "abs"@ != "upper"@ && "abs"@ != "length"@,
        "abs"@ != "char_length"@ && "abs"@ != "coalesce"@ && "abs"@ != "nullif"@,
        "abs"@ != "greatest"@ && "abs"@ != "least"@,
        "nullif"@ != "lower"@ && "nullif"@ != "upper"@ && "nullif"@ != "length"@,
        "nullif"@ != "char_length"@ && "nullif"@ != "coalesce"@,
        "nullif"@ != "greatest"@ && "nullif"@ != "least"@,
        "coalesce"@ != "lower"@ && "coalesce"@ != "upper"@ && "coalesce"@ != "length"@,
        "coalesce"@ != "char_length"@ && "coalesce"@ != "greatest"@ && "coalesce"@ != "least"@,
        "greatest"@ != "lower"@ && "greatest"@ != "upper"@ && "greatest"@ != "length"@,
        "greatest"@ != "char_length"@ && "greatest"@ != "least"@,
        "least"@ != "lower"@ && "least"@ != "upper"@ && "least"@ != "length"@,
        "least"@ != "char_length"@,
{
    reveal_strlit("abs");
    reveal_strlit("lower");
    reveal_strlit("upper");
    reveal_strlit("length");
    reveal_strlit("char_length");
    reveal_strlit("coalesce");
    reveal_strlit("nullif");
    reveal_strlit("greatest");
    reveal_strlit("least");
    assert("abs"@.len() == 3 && "lower"@.len() == 5 && "upper"@.len() == 5);
    assert("length"@.len() == 6 && "char_length"@.len() == 11 && "coalesce"@.len() == 8);
    assert("nullif"@.len() == 6 && "greatest"@.len() == 8 && "least"@.len() == 5);
    assert("nullif"@[0] != "length"@[0]);
    assert("coalesce"@[0] != "greatest"@[0]);
    assert("least"@[1] != "lower"@[1] && "least"@[0] != "upper"@[0]);
}

#[verifier::spinoff_prover]
proof fn lemma_call_settled(e: Expr, fields: Seq<Field>, row: Seq<Val>, g: Floats)
    requires
        e is Call,
        typed_row(fields, row),
        settled(e, fields),
    ensures
        match (inferred(e, fields), value(e, fields, row, g)) {
            (Ok(t), Ok(v)) => conforms(v, t),
            _ => true,
        },
    decreases e, 0nat,
{
    match e {
        Expr::Call { name, args } => {
            let n = lowered(name@);
            lemma_names_differ();
            assert(decreases_to!(e => e->args));
            assert(decreases_to!(e->args => e->args@));
            match (inferred(e, fields), values(args@, fields, row, g)) {
                (Ok(t), Ok(vs)) => {
                    lemma_values_len(args@, fields, row, g);
                    if args@.len() > 0 {
                        assert(decreases_to!(args@ => args@[0]));
                        assert(value(args@[0], fields, row, g) == Ok::<Val, Fault>(vs[0]));
                        if n == "abs"@ || n == "nullif"@ {
                            law_value_has_the_inferred_type(args@[0], fields, row, g);
                        } else if n == "coalesce"@ || n == "greatest"@ || n == "least"@ {
                            lemma_values_settled(args@, t, fields, row, g);
                            lemma_first_is_one(vs, t);
                            lemma_extreme_is_one(vs, t, n == "greatest"@, g);
                        }
                    }
                },
                _ => {},
            }
        },
        _ => {},
    }
}

/// The value of an expression has the type that is inferred for it, or is NULL,
/// on any row that keeps to the schema, where the types of its parts settle its
/// own.
pub proof fn law_value_has_the_inferred_type(
    e: Expr,
    fields: Seq<Field>,
    row: Seq<Val>,
    g: Floats,
)
    requires
        typed_row(fields, row),
        settled(e, fields),
    ensures
        match (inferred(e, fields), value(e, fields, row, g)) {
            (Ok(t), Ok(v)) => conforms(v, t),
            _ => true,
        },
    decreases e, 1nat,
{
    match e {
        Expr::Column { name } => {
            lemma_column(fields, name@);
        },
        Expr::Binary { op, left, right } => {
            if arithmetic(op) {
                law_value_has_the_inferred_type(*left, fields, row, g);
                law_value_has_the_inferred_type(*right, fields, row, g);
                match (value(*left, fields, row, g), value(*right, fields, row, g)) {
                    (Ok(a), Ok(b)) => {
                        law_arithmetic_has_the_inferred_type(op, a, b, g);
                    },
                    _ => {},
                }
            }
        },
        Expr::Call { .. } => {
            lemma_call_settled(e, fields, row, g);
        },
        _ => {},
    }
}

} // verus!
