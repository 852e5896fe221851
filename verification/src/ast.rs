//! The predicate-side abstract syntax: static literal values, field paths,
//! and the boolean operators a predicate is built from.

use vstd::prelude::*;
use crate::dynamic::Number;

verus! {

/// A static literal value: the predicate-side sibling of `Dynamic`.
pub enum Value {
    Null,
    Bool(bool),
    Number(Number),
    String(Vec<u8>),
    Array(Vec<Value>),
    Object(Vec<(Vec<u8>, Value)>),
}

/// A predicate that holds exactly when the current subject equals a literal.
pub struct LeafValue(pub Value);

/// A boolean test over the current subject.
pub enum Predicate {
    Leaf(LeafValue),
    Operators(Vec<Operator>),
}

/// One operator inside a predicate's operator list.
pub enum Operator {
    Field(FieldOperator),
    Eq(EqOperator),
    Gt(GtOperator),
    Gte(GteOperator),
    Lt(LtOperator),
    Lte(LteOperator),
    Between(BetweenOperator),
    Ne(NeOperator),
    In(InOperator),
    Not(NotOperator),
    Or(OrOperator),
    And(AndOperator),
    Exists(ExistsOperator),
    IsEmpty(IsEmptyOperator),
}

pub struct GtOperator(pub Value);

pub struct GteOperator(pub Value);

pub struct LtOperator(pub Value);

pub struct LteOperator(pub Value);

pub struct EqOperator(pub Value);

pub struct NeOperator(pub Value);

pub struct BetweenOperator(pub Value, pub Value);

pub struct InOperator(pub Vec<Value>);

pub struct NotOperator(pub Predicate);

pub struct OrOperator(pub Vec<Predicate>);

pub struct AndOperator(pub Vec<Predicate>);

pub struct ExistsOperator(pub bool);

pub struct IsEmptyOperator(pub bool);

/// A constraint on the sub-value at a path of the current subject.
pub struct FieldOperator {
    pub field: Field,
    pub predicate: Predicate,
}

/// The path of a field constraint.
pub struct Field(pub VariablePath);

/// A base name followed by member and index steps.
pub enum VariablePath {
    BaseVariable(Variable),
    InnerField { base: Box<VariablePath>, field: InnerField },
}

/// The base name of a path.
pub struct Variable {
    pub field: Vec<u8>,
}

/// A `.name` step of a path.
pub struct MemberAccess {
    pub member: Vec<u8>,
}

/// An `[index]` step of a path.
pub struct ArrayIndex {
    pub index: usize,
}

/// One step of a path.
pub enum InnerField {
    MemberAccess(MemberAccess),
    ArrayIndex(ArrayIndex),
}

} // verus!
