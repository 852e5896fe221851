//! The expression-side abstract syntax: literals, operator calls, variable
//! and field-path references, and precomputed values.

use vstd::prelude::*;
use crate::ast::{Predicate, VariablePath};
use crate::dynamic::{Dynamic, Number};

verus! {

/// An expression of the query language.
pub enum Expression {
    Literal(ExprLiteral),
    Operator(Box<ExprOperator>),
    Variable(ExprVariable),
    FieldPath(ExprFieldPath),
    Precomputed(Dynamic),
}

/// A literal expression.
pub enum ExprLiteral {
    Null(NullLiteral),
    Number(NumberLiteral),
    Bool(BoolLiteral),
    String(StringLiteral),
    Array(ArrayLiteral),
    Object(ObjectLiteral),
}

pub struct NullLiteral;

pub struct BoolLiteral {
    pub value: bool,
}

pub struct NumberLiteral {
    pub value: Number,
}

pub struct StringLiteral {
    pub value: Vec<u8>,
}

pub struct ArrayLiteral {
    pub value: Vec<Expression>,
}

/// An object literal: keys with their value expressions, in declaration order.
pub struct ObjectLiteral {
    pub value: Vec<(Vec<u8>, Expression)>,
}

/// An operator call in expression position.
pub enum ExprOperator {
    Match(MatchOperator),
    Gt(GtOperator),
    Lt(LtOperator),
    Eq(EqOperator),
}

/// Tests a predicate against an object: the evaluated `object` expression
/// where one is given, the current `ROOT` otherwise.
pub struct MatchOperator {
    pub predicate: Predicate,
    pub object: Option<Expression>,
}

pub struct GtOperator {
    pub arg1: Expression,
    pub arg2: Expression,
}

pub struct LtOperator {
    pub arg1: Expression,
    pub arg2: Expression,
}

pub struct EqOperator {
    pub arg1: Expression,
    pub arg2: Expression,
}

/// A reference that resolves a path against the whole variable environment.
pub struct ExprVariable {
    pub var_path: VariablePath,
}

/// A reference that resolves a path against the `ROOT` binding.
pub struct ExprFieldPath {
    pub field_path: VariablePath,
}

} // verus!
