use vstd::prelude::*;

pub mod ast;
pub mod ast_views;
pub mod bytes;
pub mod expression;
pub mod dynamic;
pub mod eval;
pub mod expr_parser;
pub mod context;
pub mod views;
pub mod float_bits;
pub mod parser;
pub mod script;

verus! {

/// Errors reported by the dynamic value model when an operation is applied
/// to a value of the wrong shape or to a read-only object.
#[derive(Debug, PartialEq, Eq, Structural, Clone, Copy)]
pub enum DynamicError {
    NotAnObject,
    NotAnArray,
    ImmutableObject,
    UnableToWrite,
    UnableTORead,
}

/// A small host-object fixture with two plain fields, usable as the nested
/// part of a host-backed view object.
#[derive(Debug, PartialEq, Eq, Structural, Clone, Copy)]
pub struct TestObj2 {
    pub field3: i64,
    pub field4: bool,
}

/// Errors reported by the evaluator.
#[derive(Debug, PartialEq, Eq, Structural, Clone, Copy)]
pub enum EvalError {
    UndefinedVariable,
    DynamicError(DynamicError),
}

} // verus!
