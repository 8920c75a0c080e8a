//! Expressions over rows: the tree, its evaluation, binding and typing.

pub mod bind;
pub mod eval;
pub mod float;
pub mod infer;
pub mod kernels;
pub mod laws;
pub mod typed;

use crate::model::{DataType, Scalar};
use vstd::prelude::*;

verus! {

/// A binary operator.
#[derive(Clone, Copy, Debug, PartialEq, Eq, Structural)]
pub enum BinaryOp {
    Add,
    Sub,
    Mul,
    Div,
    Eq,
    NotEq,
    Lt,
    Lte,
    Gt,
    Gte,
    And,
    Or,
}

impl BinaryOp {
    /// The operator's tag.
    pub open spec fn tag(self) -> Seq<char> {
        match self {
            BinaryOp::Add => "add"@,
            BinaryOp::Sub => "sub"@,
            BinaryOp::Mul => "mul"@,
            BinaryOp::Div => "div"@,
            BinaryOp::Eq => "eq"@,
            BinaryOp::NotEq => "neq"@,
            BinaryOp::Lt => "lt"@,
            BinaryOp::Lte => "lte"@,
            BinaryOp::Gt => "gt"@,
            BinaryOp::Gte => "gte"@,
            BinaryOp::And => "and"@,
            BinaryOp::Or => "or"@,
        }
    }

    /// The operator's tag.
    pub fn as_tag(self) -> (r: &'static str)
        ensures
            r@ == self.tag(),
    {
        match self {
            BinaryOp::Add => "add",
            BinaryOp::Sub => "sub",
            BinaryOp::Mul => "mul",
            BinaryOp::Div => "div",
            BinaryOp::Eq => "eq",
            BinaryOp::NotEq => "neq",
            BinaryOp::Lt => "lt",
            BinaryOp::Lte => "lte",
            BinaryOp::Gt => "gt",
            BinaryOp::Gte => "gte",
            BinaryOp::And => "and",
            BinaryOp::Or => "or",
        }
    }
}

/// An expression over the columns of a row.
#[derive(Debug)]
pub enum Expr {
    Column { name: String },
    Literal(Scalar),
    Cast { expr: Box<Expr>, target: DataType },
    TryCast { expr: Box<Expr>, target: DataType },
    Binary { op: BinaryOp, left: Box<Expr>, right: Box<Expr> },
    IsNull(Box<Expr>),
    IsNotNull(Box<Expr>),
    Not(Box<Expr>),
    /// A builtin: abs, lower, upper, length, coalesce, nullif, greatest, least.
    Call { name: String, args: Vec<Expr> },
    /// The member `key` of a dynamic object.
    DynamicGet { expr: Box<Expr>, key: String },
}

} // verus!
