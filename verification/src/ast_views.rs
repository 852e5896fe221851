//! The mathematical views of the abstract syntax: each tree of the parsed
//! script is abstracted to a pure tree over sequences, which the parser's and
//! the evaluator's contracts speak of.

use vstd::prelude::*;
use crate::ast::{
    Field, InnerField, Operator, Predicate, Value, VariablePath,
};
use crate::dynamic::Number;
use crate::expression::{ExprLiteral, ExprOperator, Expression};
use crate::views::{view_dyn, DynV};

verus! {

/// The view of a static literal value.
#[verifier::ext_equal]
pub enum ValueV {
    Null,
    Bool(bool),
    Number(Number),
    String(Seq<u8>),
    Array(Seq<ValueV>),
    Object(Seq<(Seq<u8>, ValueV)>),
}

/// The view of a path: a base name and the steps that follow it, in order.
#[verifier::ext_equal]
pub struct PathV {
    pub base: Seq<u8>,
    pub steps: Seq<StepV>,
}

/// One step of a path view.
#[verifier::ext_equal]
pub enum StepV {
    Member(Seq<u8>),
    Index(usize),
}

/// The view of a predicate.
#[verifier::ext_equal]
pub enum PredV {
    Leaf(ValueV),
    Operators(Seq<OpV>),
}

/// The view of one predicate operator.
#[verifier::ext_equal]
pub enum OpV {
    Field(PathV, PredV),
    Eq(ValueV),
    Gt(ValueV),
    Gte(ValueV),
    Lt(ValueV),
    Lte(ValueV),
    Between(ValueV, ValueV),
    Ne(ValueV),
    In(Seq<ValueV>),
    Not(PredV),
    Or(Seq<PredV>),
    And(Seq<PredV>),
    Exists(bool),
    IsEmpty(bool),
}

/// The view of an expression.
#[verifier::ext_equal]
pub enum ExprV {
    NullLit,
    BoolLit(bool),
    NumberLit(Number),
    StringLit(Seq<u8>),
    ArrayLit(Seq<ExprV>),
    ObjectLit(Seq<(Seq<u8>, ExprV)>),
    GtOp(Box<ExprV>, Box<ExprV>),
    LtOp(Box<ExprV>, Box<ExprV>),
    EqOp(Box<ExprV>, Box<ExprV>),
    MatchOp(PredV, Option<Box<ExprV>>),
    Variable(PathV),
    FieldPath(PathV),
    Precomputed(DynV),
}

/// The view of a path, flattened to base and steps.
pub open spec fn view_path(p: VariablePath) -> PathV
    decreases p,
{
    match p {
        VariablePath::BaseVariable(v) => PathV { base: v.field@, steps: Seq::empty() },
        VariablePath::InnerField { base, field } => {
            let b = view_path(*base);
            PathV { base: b.base, steps: b.steps.push(view_step(field)) }
        },
    }
}

/// The view of one path step.
pub open spec fn view_step(f: InnerField) -> StepV {
    match f {
        InnerField::MemberAccess(m) => StepV::Member(m.member@),
        InnerField::ArrayIndex(a) => StepV::Index(a.index),
    }
}

/// The view of a static literal value.
pub open spec fn view_value(v: Value) -> ValueV
    decreases v,
{
    match v {
        Value::Null => ValueV::Null,
        Value::Bool(b) => ValueV::Bool(b),
        Value::Number(n) => ValueV::Number(n),
        Value::String(s) => ValueV::String(s@),
        Value::Array(a) => ValueV::Array(view_values(a@)),
        Value::Object(p) => ValueV::Object(view_value_ent(p@)),
    }
}

/// The view of a sequence of static values.
pub open spec fn view_values(s: Seq<Value>) -> Seq<ValueV>
    decreases s,
{
    if s.len() == 0 {
        Seq::empty()
    } else {
        view_values(s.drop_last()).push(view_value(s.last()))
    }
}

/// The view of a sequence of static object entries.
pub open spec fn view_value_ent(s: Seq<(Vec<u8>, Value)>) -> Seq<(Seq<u8>, ValueV)>
    decreases s,
{
    if s.len() == 0 {
        Seq::empty()
    } else {
        view_value_ent(s.drop_last()).push((s.last().0@, view_value(s.last().1)))
    }
}

/// The static value a literal denotes, as a dynamic value.
pub open spec fn dyn_of_value(v: ValueV) -> DynV
    decreases v,
{
    match v {
        ValueV::Null => DynV::Null,
        ValueV::Bool(b) => DynV::Bool(b),
        ValueV::Number(n) => DynV::Number(n),
        ValueV::String(s) => DynV::String(s),
        ValueV::Array(a) => DynV::Array(dyn_of_values(a)),
        ValueV::Object(p) => DynV::Mapping(dyn_of_value_ent(p)),
    }
}

/// The dynamic values a sequence of static values denotes.
pub open spec fn dyn_of_values(s: Seq<ValueV>) -> Seq<DynV>
    decreases s,
{
    if s.len() == 0 {
        Seq::empty()
    } else {
        dyn_of_values(s.drop_last()).push(dyn_of_value(s.last()))
    }
}

/// The dynamic entries a sequence of static entries denotes.
pub open spec fn dyn_of_value_ent(s: Seq<(Seq<u8>, ValueV)>) -> Seq<(Seq<u8>, DynV)>
    decreases s,
{
    if s.len() == 0 {
        Seq::empty()
    } else {
        dyn_of_value_ent(s.drop_last()).push((s.last().0, dyn_of_value(s.last().1)))
    }
}

pub broadcast proof fn lemma_dyn_of_values_len(s: Seq<ValueV>)
    ensures
        (#[trigger] dyn_of_values(s)).len() == s.len(),
    decreases s,
{
    if s.len() > 0 {
        lemma_dyn_of_values_len(s.drop_last());
    }
}

pub broadcast proof fn lemma_dyn_of_values_index(s: Seq<ValueV>, i: int)
    requires
        0 <= i < s.len(),
    ensures
        #[trigger] dyn_of_values(s)[i] == dyn_of_value(s[i]),
    decreases s,
{
    lemma_dyn_of_values_len(s.drop_last());
    if i < s.len() - 1 {
        lemma_dyn_of_values_index(s.drop_last(), i);
    }
}

pub broadcast proof fn lemma_dyn_of_value_ent_len(s: Seq<(Seq<u8>, ValueV)>)
    ensures
        (#[trigger] dyn_of_value_ent(s)).len() == s.len(),
    decreases s,
{
    if s.len() > 0 {
        lemma_dyn_of_value_ent_len(s.drop_last());
    }
}

pub broadcast proof fn lemma_dyn_of_value_ent_index(s: Seq<(Seq<u8>, ValueV)>, i: int)
    requires
        0 <= i < s.len(),
    ensures
        #[trigger] dyn_of_value_ent(s)[i] == (s[i].0, dyn_of_value(s[i].1)),
    decreases s,
{
    lemma_dyn_of_value_ent_len(s.drop_last());
    if i < s.len() - 1 {
        lemma_dyn_of_value_ent_index(s.drop_last(), i);
    }
}

/// The view of a predicate.
pub open spec fn view_pred(p: Predicate) -> PredV
    decreases p,
{
    match p {
        Predicate::Leaf(leaf) => PredV::Leaf(view_value(leaf.0)),
        Predicate::Operators(ops) => PredV::Operators(view_ops(ops@)),
    }
}

/// The view of a sequence of predicate operators.
pub open spec fn view_ops(s: Seq<Operator>) -> Seq<OpV>
    decreases s,
{
    if s.len() == 0 {
        Seq::empty()
    } else {
        view_ops(s.drop_last()).push(view_op(s.last()))
    }
}

/// The view of one predicate operator.
pub open spec fn view_op(o: Operator) -> OpV
    decreases o,
{
    match o {
        Operator::Field(f) => OpV::Field(view_field(f.field), view_pred(f.predicate)),
        Operator::Eq(x) => OpV::Eq(view_value(x.0)),
        Operator::Gt(x) => OpV::Gt(view_value(x.0)),
        Operator::Gte(x) => OpV::Gte(view_value(x.0)),
        Operator::Lt(x) => OpV::Lt(view_value(x.0)),
        Operator::Lte(x) => OpV::Lte(view_value(x.0)),
        Operator::Between(x) => OpV::Between(view_value(x.0), view_value(x.1)),
        Operator::Ne(x) => OpV::Ne(view_value(x.0)),
        Operator::In(x) => OpV::In(view_values(x.0@)),
        Operator::Not(x) => OpV::Not(view_pred(x.0)),
        Operator::Or(x) => OpV::Or(view_preds(x.0@)),
        Operator::And(x) => OpV::And(view_preds(x.0@)),
        Operator::Exists(x) => OpV::Exists(x.0),
        Operator::IsEmpty(x) => OpV::IsEmpty(x.0),
    }
}

/// The view of a field-constraint path.
pub open spec fn view_field(f: Field) -> PathV {
    view_path(f.0)
}

/// The view of a sequence of predicates.
pub open spec fn view_preds(s: Seq<Predicate>) -> Seq<PredV>
    decreases s,
{
    if s.len() == 0 {
        Seq::empty()
    } else {
        view_preds(s.drop_last()).push(view_pred(s.last()))
    }
}

/// The view of an expression.
pub open spec fn view_expr(e: Expression) -> ExprV
    decreases e,
{
    match e {
        Expression::Literal(l) => view_literal(l),
        Expression::Operator(op) => view_expr_op(*op),
        Expression::Variable(v) => ExprV::Variable(view_path(v.var_path)),
        Expression::FieldPath(f) => ExprV::FieldPath(view_path(f.field_path)),
        Expression::Precomputed(d) => ExprV::Precomputed(view_dyn(d)),
    }
}

/// The view of a literal expression.
pub open spec fn view_literal(l: ExprLiteral) -> ExprV
    decreases l,
{
    match l {
        ExprLiteral::Null(_) => ExprV::NullLit,
        ExprLiteral::Number(n) => ExprV::NumberLit(n.value),
        ExprLiteral::Bool(b) => ExprV::BoolLit(b.value),
        ExprLiteral::String(s) => ExprV::StringLit(s.value@),
        ExprLiteral::Array(a) => ExprV::ArrayLit(view_exprs(a.value@)),
        ExprLiteral::Object(o) => ExprV::ObjectLit(view_expr_ent(o.value@)),
    }
}

/// The view of an operator call.
pub open spec fn view_expr_op(op: ExprOperator) -> ExprV
    decreases op,
{
    match op {
        ExprOperator::Match(m) => ExprV::MatchOp(
            view_pred(m.predicate),
            match m.object {
                Some(e) => Some(Box::new(view_expr(e))),
                None => None,
            },
        ),
        ExprOperator::Gt(g) => ExprV::GtOp(
            Box::new(view_expr(g.arg1)),
            Box::new(view_expr(g.arg2)),
        ),
        ExprOperator::Lt(l) => ExprV::LtOp(
            Box::new(view_expr(l.arg1)),
            Box::new(view_expr(l.arg2)),
        ),
        ExprOperator::Eq(q) => ExprV::EqOp(
            Box::new(view_expr(q.arg1)),
            Box::new(view_expr(q.arg2)),
        ),
    }
}

/// The view of a sequence of expressions.
pub open spec fn view_exprs(s: Seq<Expression>) -> Seq<ExprV>
    decreases s,
{
    if s.len() == 0 {
        Seq::empty()
    } else {
        view_exprs(s.drop_last()).push(view_expr(s.last()))
    }
}

/// The view of a sequence of object-literal entries.
pub open spec fn view_expr_ent(s: Seq<(Vec<u8>, Expression)>) -> Seq<(Seq<u8>, ExprV)>
    decreases s,
{
    if s.len() == 0 {
        Seq::empty()
    } else {
        view_expr_ent(s.drop_last()).push((s.last().0@, view_expr(s.last().1)))
    }
}

pub broadcast proof fn lemma_view_values_len(s: Seq<Value>)
    ensures
        (#[trigger] view_values(s)).len() == s.len(),
    decreases s,
{
    if s.len() > 0 {
        lemma_view_values_len(s.drop_last());
    }
}

pub broadcast proof fn lemma_view_values_index(s: Seq<Value>, i: int)
    requires
        0 <= i < s.len(),
    ensures
        #[trigger] view_values(s)[i] == view_value(s[i]),
    decreases s,
{
    lemma_view_values_len(s.drop_last());
    if i < s.len() - 1 {
        lemma_view_values_index(s.drop_last(), i);
    }
}

pub broadcast proof fn lemma_view_value_ent_len(s: Seq<(Vec<u8>, Value)>)
    ensures
        (#[trigger] view_value_ent(s)).len() == s.len(),
    decreases s,
{
    if s.len() > 0 {
        lemma_view_value_ent_len(s.drop_last());
    }
}

pub broadcast proof fn lemma_view_value_ent_index(s: Seq<(Vec<u8>, Value)>, i: int)
    requires
        0 <= i < s.len(),
    ensures
        #[trigger] view_value_ent(s)[i] == (s[i].0@, view_value(s[i].1)),
    decreases s,
{
    lemma_view_value_ent_len(s.drop_last());
    if i < s.len() - 1 {
        lemma_view_value_ent_index(s.drop_last(), i);
    }
}

pub broadcast proof fn lemma_view_ops_len(s: Seq<Operator>)
    ensures
        (#[trigger] view_ops(s)).len() == s.len(),
    decreases s,
{
    if s.len() > 0 {
        lemma_view_ops_len(s.drop_last());
    }
}

pub broadcast proof fn lemma_view_ops_index(s: Seq<Operator>, i: int)
    requires
        0 <= i < s.len(),
    ensures
        #[trigger] view_ops(s)[i] == view_op(s[i]),
    decreases s,
{
    lemma_view_ops_len(s.drop_last());
    if i < s.len() - 1 {
        lemma_view_ops_index(s.drop_last(), i);
    }
}

pub broadcast proof fn lemma_view_preds_len(s: Seq<Predicate>)
    ensures
        (#[trigger] view_preds(s)).len() == s.len(),
    decreases s,
{
    if s.len() > 0 {
        lemma_view_preds_len(s.drop_last());
    }
}

pub broadcast proof fn lemma_view_preds_index(s: Seq<Predicate>, i: int)
    requires
        0 <= i < s.len(),
    ensures
        #[trigger] view_preds(s)[i] == view_pred(s[i]),
    decreases s,
{
    lemma_view_preds_len(s.drop_last());
    if i < s.len() - 1 {
        lemma_view_preds_index(s.drop_last(), i);
    }
}

pub broadcast proof fn lemma_view_exprs_len(s: Seq<Expression>)
    ensures
        (#[trigger] view_exprs(s)).len() == s.len(),
    decreases s,
{
    if s.len() > 0 {
        lemma_view_exprs_len(s.drop_last());
    }
}

pub broadcast proof fn lemma_view_exprs_index(s: Seq<Expression>, i: int)
    requires
        0 <= i < s.len(),
    ensures
        #[trigger] view_exprs(s)[i] == view_expr(s[i]),
    decreases s,
{
    lemma_view_exprs_len(s.drop_last());
    if i < s.len() - 1 {
        lemma_view_exprs_index(s.drop_last(), i);
    }
}

pub broadcast proof fn lemma_view_expr_ent_len(s: Seq<(Vec<u8>, Expression)>)
    ensures
        (#[trigger] view_expr_ent(s)).len() == s.len(),
    decreases s,
{
    if s.len() > 0 {
        lemma_view_expr_ent_len(s.drop_last());
    }
}

pub broadcast proof fn lemma_view_expr_ent_index(s: Seq<(Vec<u8>, Expression)>, i: int)
    requires
        0 <= i < s.len(),
    ensures
        #[trigger] view_expr_ent(s)[i] == (s[i].0@, view_expr(s[i].1)),
    decreases s,
{
    lemma_view_expr_ent_len(s.drop_last());
    if i < s.len() - 1 {
        lemma_view_expr_ent_index(s.drop_last(), i);
    }
}

} // verus!
