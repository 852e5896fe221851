//! The evaluator: walks an expression under a context, resolving variables
//! and field paths, scoping the `CURRENT` binding for `$match` and field
//! constraints, and producing a dynamic value or a typed error.
//!
//! Every exported function is pinned to a specification function over the
//! views: `spec_eval` for expressions, `spec_test` for predicates and
//! `spec_resolve` for paths. Evaluation leaves the context exactly as it
//! found it, whatever the outcome.

use vstd::prelude::*;
use crate::ast::{
    AndOperator, BetweenOperator, EqOperator, ExistsOperator, Field, FieldOperator, GtOperator,
    GteOperator, InOperator, IsEmptyOperator, LeafValue, LtOperator, LteOperator, NeOperator,
    NotOperator, Operator, OrOperator, Predicate, Value, VariablePath,
};
use crate::ast_views::{
    dyn_of_value, dyn_of_value_ent, dyn_of_values, lemma_dyn_of_value_ent_index,
    lemma_dyn_of_value_ent_len, lemma_dyn_of_values_index, lemma_dyn_of_values_len,
    lemma_view_value_ent_index, lemma_view_value_ent_len, lemma_view_values_index,
    lemma_view_values_len, view_path, view_pred, view_value, ExprV, OpV, PathV, PredV, StepV,
    ValueV,
};
use crate::bytes::copy_bytes;
use crate::context::{spec_current_key, spec_root_key, Context};
use crate::dynamic::{
    copy_dynamic, dyn_cmp, dyn_eq, lemma_ent_set_preserves_keys, lemma_ent_set_restore,
    spec_dyn_cmp, spec_dyn_eq, spec_ent_set, spec_find_entry, spec_get_field, spec_get_item,
    spec_lookup, Dynamic,
};
use vstd::pervasive::VecAdditionalExecFns;
use crate::views::{
    lemma_view_arr_index, lemma_view_arr_len, lemma_view_ent_index, lemma_view_ent_len, view_dyn,
    DynV,
};
use crate::expression::{ExprLiteral, Expression};
use crate::EvalError;

verus! {

broadcast use
    lemma_view_arr_len,
    lemma_view_arr_index,
    lemma_view_ent_len,
    lemma_view_ent_index,
    lemma_view_values_len,
    lemma_view_values_index,
    lemma_view_value_ent_len,
    lemma_view_value_ent_index,
    lemma_dyn_of_values_len,
    lemma_dyn_of_values_index,
    lemma_dyn_of_value_ent_len,
    lemma_dyn_of_value_ent_index,
;

/// Whether the static literal `v` equals the dynamic value `d`, under the
/// structural equality of the value model.
pub open spec fn spec_value_eq_dyn(v: ValueV, d: DynV) -> bool {
    spec_dyn_eq(dyn_of_value(v), d)
}

/// Resolution of a path against a starting value: the base name is looked up
/// as a field, then each step descends into a field or an array element.
/// A failed step resolves the whole path to `None`.
pub open spec fn spec_resolve(p: PathV, start: DynV) -> Option<DynV> {
    match spec_get_field(start, p.base) {
        Some(v) => spec_resolve_steps(p.steps, 0nat, v),
        None => None,
    }
}

/// Resolution of the steps from position `i` on, starting at `cur`.
pub open spec fn spec_resolve_steps(steps: Seq<StepV>, i: nat, cur: DynV) -> Option<DynV>
    decreases steps.len() - i,
{
    if i >= steps.len() {
        Some(cur)
    } else {
        let next = match steps[i as int] {
            StepV::Member(m) => spec_get_field(cur, m),
            StepV::Index(idx) => spec_get_item(cur, idx as int),
        };
        match next {
            Some(v) => spec_resolve_steps(steps, (i + 1) as nat, v),
            None => None,
        }
    }
}

/// Resolution in predicate position: a miss yields `Null`, never an error.
pub open spec fn spec_resolve_or_null(p: PathV, start: DynV) -> DynV {
    match spec_resolve(p, start) {
        Some(v) => v,
        None => DynV::Null,
    }
}

/// Whether the dynamic value is an empty string, array or object.
/// `Null` is not empty.
pub open spec fn spec_is_empty(d: DynV) -> bool {
    match d {
        DynV::String(s) => s.len() == 0,
        DynV::Array(a) => a.len() == 0,
        DynV::Mapping(p) => p.len() == 0,
        DynV::DynObj(p) => p.len() == 0,
        _ => false,
    }
}

/// The truth of a predicate against the current subject.
pub open spec fn spec_test(p: PredV, current: DynV) -> bool
    decreases p, 0int,
{
    match p {
        PredV::Leaf(v) => spec_value_eq_dyn(v, current),
        PredV::Operators(ops) => spec_test_all(ops, 0nat, current),
    }
}

/// The conjunction of the operators from position `i` on; an empty list
/// holds.
pub open spec fn spec_test_all(ops: Seq<OpV>, i: nat, current: DynV) -> bool
    decreases ops, ops.len() - i,
{
    if i >= ops.len() {
        true
    } else {
        spec_test_op(ops[i as int], current) && spec_test_all(ops, (i + 1) as nat, current)
    }
}

/// The truth of one predicate operator against the current subject.
pub open spec fn spec_test_op(o: OpV, current: DynV) -> bool
    decreases o, 0int,
{
    match o {
        OpV::Field(path, pred) => spec_test(pred, spec_resolve_or_null(path, current)),
        OpV::Eq(v) => spec_value_eq_dyn(v, current),
        OpV::Ne(v) => !spec_value_eq_dyn(v, current),
        OpV::Gt(v) => spec_dyn_cmp(current, dyn_of_value(v)) == Some(core::cmp::Ordering::Greater),
        OpV::Gte(v) => spec_dyn_cmp(current, dyn_of_value(v)) matches Some(
            core::cmp::Ordering::Greater
            | core::cmp::Ordering::Equal,
        ),
        OpV::Lt(v) => spec_dyn_cmp(current, dyn_of_value(v)) == Some(core::cmp::Ordering::Less),
        OpV::Lte(v) => spec_dyn_cmp(current, dyn_of_value(v)) matches Some(
            core::cmp::Ordering::Less
            | core::cmp::Ordering::Equal,
        ),
        OpV::Between(lo, hi) => (spec_dyn_cmp(dyn_of_value(lo), current) matches Some(
            core::cmp::Ordering::Less
            | core::cmp::Ordering::Equal,
        )) && (spec_dyn_cmp(current, dyn_of_value(hi)) matches Some(
            core::cmp::Ordering::Less
            | core::cmp::Ordering::Equal,
        )),
        OpV::In(list) => spec_test_in(list, 0nat, current),
        OpV::Not(p) => !spec_test(p, current),
        OpV::And(ps) => spec_test_and(ps, 0nat, current),
        OpV::Or(ps) => spec_test_or(ps, 0nat, current),
        OpV::Exists(b) => (!(current is Null)) == b,
        OpV::IsEmpty(b) => spec_is_empty(current) == b,
    }
}

/// Membership of the current subject in a literal list, by equality.
pub open spec fn spec_test_in(list: Seq<ValueV>, i: nat, current: DynV) -> bool
    decreases list.len() - i,
{
    if i >= list.len() {
        false
    } else {
        spec_value_eq_dyn(list[i as int], current) || spec_test_in(list, (i + 1) as nat, current)
    }
}

/// The conjunction of the predicates from position `i` on; empty holds.
pub open spec fn spec_test_and(ps: Seq<PredV>, i: nat, current: DynV) -> bool
    decreases ps, ps.len() - i,
{
    if i >= ps.len() {
        true
    } else {
        spec_test(ps[i as int], current) && spec_test_and(ps, (i + 1) as nat, current)
    }
}

/// The disjunction of the predicates from position `i` on; empty fails.
pub open spec fn spec_test_or(ps: Seq<PredV>, i: nat, current: DynV) -> bool
    decreases ps, ps.len() - i,
{
    if i >= ps.len() {
        false
    } else {
        spec_test(ps[i as int], current) || spec_test_or(ps, (i + 1) as nat, current)
    }
}

impl VariablePath {
    /// Resolves this path against a starting value, `None` on any miss.
    pub fn resolve(&self, root: &Dynamic) -> (r: Option<Dynamic>)
        ensures
            crate::views::view_opt(r) == spec_resolve(view_path(*self), view_dyn(*root)),
        decreases *self,
    {
        match self {
            VariablePath::BaseVariable(var) => {
                let r = root.get_object_field(var.field.as_slice());
                proof {
                    assert(view_path(*self).steps =~= Seq::<StepV>::empty());
                }
                r
            },
            VariablePath::InnerField { base, field } => {
                proof {
                    let start = view_dyn(*root);
                    let basep = view_path(**base);
                    match spec_get_field(start, basep.base) {
                        Some(v0) => {
                            lemma_resolve_steps_push(
                                basep.steps,
                                crate::ast_views::view_step(*field),
                                0nat,
                                v0,
                            );
                        },
                        None => {},
                    }
                }
                let base_val = match base.resolve(root) {
                    Some(v) => v,
                    None => {
                        return None;
                    },
                };
                match field {
                    crate::ast::InnerField::MemberAccess(m) => base_val.get_object_field(
                        m.member.as_slice(),
                    ),
                    crate::ast::InnerField::ArrayIndex(a) => base_val.get_array_item(a.index),
                }
            },
        }
    }
}

/// Appending a step to a path resolves the shorter path first, then applies
/// the step to its result.
proof fn lemma_resolve_steps_push(steps: Seq<StepV>, st: StepV, i: nat, cur: DynV)
    requires
        i <= steps.len(),
    ensures
        spec_resolve_steps(steps.push(st), i, cur) == match spec_resolve_steps(steps, i, cur) {
            Some(v) => match st {
                StepV::Member(m) => spec_get_field(v, m),
                StepV::Index(idx) => spec_get_item(v, idx as int),
            },
            None => None,
        },
    decreases steps.len() - i,
{
    assert(steps.push(st).len() == steps.len() + 1);
    if i < steps.len() {
        assert(steps.push(st)[i as int] == steps[i as int]);
        let next = match steps[i as int] {
            StepV::Member(m) => spec_get_field(cur, m),
            StepV::Index(idx) => spec_get_item(cur, idx as int),
        };
        match next {
            Some(v) => {
                lemma_resolve_steps_push(steps, st, (i + 1) as nat, v);
            },
            None => {},
        }
    } else {
        assert(steps.push(st)[i as int] == st);
        match st {
            StepV::Member(m) => {
                match spec_get_field(cur, m) {
                    Some(v) => {
                        assert(spec_resolve_steps(steps.push(st), (i + 1) as nat, v) == Some(v));
                    },
                    None => {},
                }
            },
            StepV::Index(idx) => {
                match spec_get_item(cur, idx as int) {
                    Some(v) => {
                        assert(spec_resolve_steps(steps.push(st), (i + 1) as nat, v) == Some(v));
                    },
                    None => {},
                }
            },
        }
    }
}

impl Field {
    /// Resolves the constraint path against a value; a miss yields `Null`.
    pub fn resolve(&self, value: &Dynamic) -> (r: Dynamic)
        ensures
            view_dyn(r) == spec_resolve_or_null(crate::ast_views::view_field(*self), view_dyn(
                *value,
            )),
    {
        match self.0.resolve(value) {
            Some(v) => v,
            None => Dynamic::Null,
        }
    }
}

/// The static literal as a dynamic value: arrays become dynamic arrays and
/// objects become owned mappings, entry for entry.
pub fn value_to_dynamic(v: &Value) -> (r: Dynamic)
    ensures
        view_dyn(r) == dyn_of_value(view_value(*v)),
    decreases *v, 0int,
{
    match v {
        Value::Null => Dynamic::Null,
        Value::Bool(b) => Dynamic::Bool(*b),
        Value::Number(n) => Dynamic::Number(*n),
        Value::String(s) => Dynamic::String(copy_bytes(s.as_slice())),
        Value::Array(a) => Dynamic::Array(values_to_dynamic(a)),
        Value::Object(p) => Dynamic::Object(crate::dynamic::Object::Mapping(
            value_entries_to_dynamic(p),
        )),
    }
}

fn values_to_dynamic(a: &Vec<Value>) -> (r: Vec<Dynamic>)
    ensures
        crate::views::view_arr(r@) == dyn_of_values(crate::ast_views::view_values(a@)),
    decreases a@, 0int,
{
    let mut out: Vec<Dynamic> = Vec::new();
    let mut i: usize = 0;
    while i < a.len()
        invariant
            i <= a@.len(),
            crate::views::view_arr(out@) =~= dyn_of_values(
                crate::ast_views::view_values(a@),
            ).subrange(0, i as int),
        decreases a@.len() - i,
    {
        let ghost prev = out@;
        out.push(value_to_dynamic(&a[i]));
        proof {
            assert(out@.drop_last() =~= prev);
            assert(crate::views::view_arr(out@) =~= dyn_of_values(
                crate::ast_views::view_values(a@),
            ).subrange(0, i + 1 as int));
        }
        i = i + 1;
    }
    proof {
        let s = dyn_of_values(crate::ast_views::view_values(a@));
        assert(s.subrange(0, s.len() as int) =~= s);
    }
    out
}

fn value_entries_to_dynamic(p: &Vec<(Vec<u8>, Value)>) -> (r: Vec<(Vec<u8>, Dynamic)>)
    ensures
        crate::views::view_ent(r@) == dyn_of_value_ent(crate::ast_views::view_value_ent(p@)),
    decreases p@, 0int,
{
    let mut out: Vec<(Vec<u8>, Dynamic)> = Vec::new();
    let mut i: usize = 0;
    while i < p.len()
        invariant
            i <= p@.len(),
            crate::views::view_ent(out@) =~= dyn_of_value_ent(
                crate::ast_views::view_value_ent(p@),
            ).subrange(0, i as int),
        decreases p@.len() - i,
    {
        let ghost prev = out@;
        let key = copy_bytes(p[i].0.as_slice());
        let value = value_to_dynamic(&p[i].1);
        out.push((key, value));
        proof {
            assert(out@.drop_last() =~= prev);
            assert(crate::views::view_ent(out@) =~= dyn_of_value_ent(
                crate::ast_views::view_value_ent(p@),
            ).subrange(0, i + 1 as int));
        }
        i = i + 1;
    }
    proof {
        let s = dyn_of_value_ent(crate::ast_views::view_value_ent(p@));
        assert(s.subrange(0, s.len() as int) =~= s);
    }
    out
}

/// Equality of a static literal with a dynamic value.
pub fn value_eq_dynamic(v: &Value, d: &Dynamic) -> (r: bool)
    ensures
        r == spec_value_eq_dyn(view_value(*v), view_dyn(*d)),
{
    let dv = value_to_dynamic(v);
    dyn_eq(&dv, d)
}

impl LeafValue {
    /// A leaf predicate holds when its literal equals the current subject.
    pub fn test(&self, context: &mut Context) -> (r: bool)
        requires
            old(context).wf(),
        ensures
            final(context).wf(),
            final(context).entries() == old(context).entries(),
            r == spec_test(PredV::Leaf(view_value(self.0)), old(context).spec_current()),
    {
        let current = context.get_current();
        value_eq_dynamic(&self.0, &current)
    }
}

impl Predicate {
    /// The truth of this predicate against the `CURRENT` binding. The
    /// context comes back exactly as it went in.
    pub fn test(&self, context: &mut Context) -> (r: bool)
        requires
            old(context).wf(),
        ensures
            final(context).wf(),
            final(context).entries() == old(context).entries(),
            r == spec_test(view_pred(*self), old(context).spec_current()),
        decreases *self, 0int,
    {
        match self {
            Predicate::Leaf(leaf) => leaf.test(context),
            Predicate::Operators(ops) => {
                proof {
                    crate::ast_views::lemma_view_ops_len(ops@);
                }
                test_ops(ops, 0, context)
            },
        }
    }
}

fn test_ops(ops: &Vec<Operator>, i: usize, context: &mut Context) -> (r: bool)
    requires
        old(context).wf(),
        i <= ops@.len(),
    ensures
        final(context).wf(),
        final(context).entries() == old(context).entries(),
        r == spec_test_all(crate::ast_views::view_ops(ops@), i as nat, old(
            context,
        ).spec_current()),
    decreases ops@, ops@.len() - i,
{
    proof {
        crate::ast_views::lemma_view_ops_len(ops@);
        if i < ops@.len() {
            crate::ast_views::lemma_view_ops_index(ops@, i as int);
        }
    }
    if i == ops.len() {
        true
    } else {
        if !ops[i].test(context) {
            return false;
        }
        test_ops(ops, i + 1, context)
    }
}

impl Operator {
    /// The truth of one predicate operator against the `CURRENT` binding.
    pub fn test(&self, context: &mut Context) -> (r: bool)
        requires
            old(context).wf(),
        ensures
            final(context).wf(),
            final(context).entries() == old(context).entries(),
            r == spec_test_op(crate::ast_views::view_op(*self), old(context).spec_current()),
        decreases *self, 1int,
    {
        match self {
            Operator::Field(f) => f.test(context),
            Operator::Eq(EqOperator(v)) => {
                let current = context.get_current();
                value_eq_dynamic(v, &current)
            },
            Operator::Ne(NeOperator(v)) => {
                let current = context.get_current();
                !value_eq_dynamic(v, &current)
            },
            Operator::Gt(GtOperator(v)) => {
                let current = context.get_current();
                let dv = value_to_dynamic(v);
                matches!(dyn_cmp(&current, &dv), Some(core::cmp::Ordering::Greater))
            },
            Operator::Gte(GteOperator(v)) => {
                let current = context.get_current();
                let dv = value_to_dynamic(v);
                matches!(
                    dyn_cmp(&current, &dv),
                    Some(core::cmp::Ordering::Greater | core::cmp::Ordering::Equal)
                )
            },
            Operator::Lt(LtOperator(v)) => {
                let current = context.get_current();
                let dv = value_to_dynamic(v);
                matches!(dyn_cmp(&current, &dv), Some(core::cmp::Ordering::Less))
            },
            Operator::Lte(LteOperator(v)) => {
                let current = context.get_current();
                let dv = value_to_dynamic(v);
                matches!(
                    dyn_cmp(&current, &dv),
                    Some(core::cmp::Ordering::Less | core::cmp::Ordering::Equal)
                )
            },
            Operator::Between(BetweenOperator(lo, hi)) => {
                let current = context.get_current();
                let dlo = value_to_dynamic(lo);
                let dhi = value_to_dynamic(hi);
                matches!(
                    dyn_cmp(&dlo, &current),
                    Some(core::cmp::Ordering::Less | core::cmp::Ordering::Equal)
                ) && matches!(
                    dyn_cmp(&current, &dhi),
                    Some(core::cmp::Ordering::Less | core::cmp::Ordering::Equal)
                )
            },
            Operator::In(InOperator(list)) => {
                let current = context.get_current();
                test_in(list, 0, &current)
            },
            Operator::Not(NotOperator(p)) => !p.test(context),
            Operator::And(AndOperator(ps)) => test_and(ps, 0, context),
            Operator::Or(OrOperator(ps)) => test_or(ps, 0, context),
            Operator::Exists(ExistsOperator(b)) => {
                let current = context.get_current();
                !current.is_null() == *b
            },
            Operator::IsEmpty(IsEmptyOperator(b)) => {
                let current = context.get_current();
                is_empty_dynamic(&current) == *b
            },
        }
    }
}

/// Whether a dynamic value is an empty string, array or object.
pub fn is_empty_dynamic(d: &Dynamic) -> (r: bool)
    ensures
        r == spec_is_empty(view_dyn(*d)),
{
    match d {
        Dynamic::String(s) => s.len() == 0,
        Dynamic::Array(a) => a.len() == 0,
        Dynamic::Object(o) => crate::dynamic::object_entries(o).len() == 0,
        _ => false,
    }
}

fn test_in(list: &Vec<Value>, i: usize, current: &Dynamic) -> (r: bool)
    requires
        i <= list@.len(),
    ensures
        r == spec_test_in(crate::ast_views::view_values(list@), i as nat, view_dyn(*current)),
    decreases list@.len() - i,
{
    if i == list.len() {
        false
    } else {
        if value_eq_dynamic(&list[i], current) {
            return true;
        }
        test_in(list, i + 1, current)
    }
}

fn test_and(ps: &Vec<Predicate>, i: usize, context: &mut Context) -> (r: bool)
    requires
        old(context).wf(),
        i <= ps@.len(),
    ensures
        final(context).wf(),
        final(context).entries() == old(context).entries(),
        r == spec_test_and(crate::ast_views::view_preds(ps@), i as nat, old(
            context,
        ).spec_current()),
    decreases ps@, ps@.len() - i,
{
    proof {
        crate::ast_views::lemma_view_preds_len(ps@);
        if i < ps@.len() {
            crate::ast_views::lemma_view_preds_index(ps@, i as int);
        }
    }
    if i == ps.len() {
        true
    } else {
        if !ps[i].test(context) {
            return false;
        }
        test_and(ps, i + 1, context)
    }
}

fn test_or(ps: &Vec<Predicate>, i: usize, context: &mut Context) -> (r: bool)
    requires
        old(context).wf(),
        i <= ps@.len(),
    ensures
        final(context).wf(),
        final(context).entries() == old(context).entries(),
        r == spec_test_or(crate::ast_views::view_preds(ps@), i as nat, old(
            context,
        ).spec_current()),
    decreases ps@, ps@.len() - i,
{
    proof {
        crate::ast_views::lemma_view_preds_len(ps@);
        if i < ps@.len() {
            crate::ast_views::lemma_view_preds_index(ps@, i as int);
        }
    }
    if i == ps.len() {
        false
    } else {
        if ps[i].test(context) {
            return true;
        }
        test_or(ps, i + 1, context)
    }
}

impl FieldOperator {
    /// Restricts the subject to the sub-value at the constraint's path (or
    /// `Null` on a miss), tests the inner predicate, and restores `CURRENT`.
    pub fn test(&self, context: &mut Context) -> (r: bool)
        requires
            old(context).wf(),
        ensures
            final(context).wf(),
            final(context).entries() == old(context).entries(),
            r == spec_test(
                view_pred(self.predicate),
                spec_resolve_or_null(
                    crate::ast_views::view_field(self.field),
                    old(context).spec_current(),
                ),
            ),
        decreases *self, 0int,
    {
        let current = context.get_current();
        let next = self.field.resolve(&current);
        let ghost old_ents = old(context).entries();
        let ghost next_v = view_dyn(next);
        let prev = context.set_current(next);
        proof {
            lemma_ent_set_preserves_keys(
                old_ents,
                spec_current_key(),
                spec_current_key(),
                next_v,
            );
        }
        let r = self.predicate.test(context);
        let p0 = match prev {
            Some(p) => p,
            None => Dynamic::Null,
        };
        let _ = context.set_current(p0);
        proof {
            lemma_ent_set_restore(old_ents, spec_current_key(), next_v);
        }
        r
    }
}


/// The abstraction of an evaluation result.
pub open spec fn view_res(r: Result<Dynamic, EvalError>) -> Result<DynV, EvalError> {
    match r {
        Ok(d) => Ok(view_dyn(d)),
        Err(e) => Err(e),
    }
}

/// The abstraction of an evaluated element list.
pub open spec fn view_res_arr(r: Result<Vec<Dynamic>, EvalError>) -> Result<
    Seq<DynV>,
    EvalError,
> {
    match r {
        Ok(v) => Ok(crate::views::view_arr(v@)),
        Err(e) => Err(e),
    }
}

/// The abstraction of an evaluated entry list.
pub open spec fn view_res_ent(r: Result<Vec<(Vec<u8>, Dynamic)>, EvalError>) -> Result<
    Seq<(Seq<u8>, DynV)>,
    EvalError,
> {
    match r {
        Ok(v) => Ok(crate::views::view_ent(v@)),
        Err(e) => Err(e),
    }
}

/// The value of an expression under a context: a dynamic value, or the
/// error of the first failing sub-expression.
pub open spec fn spec_eval(e: ExprV, ctx: Seq<(Seq<u8>, DynV)>) -> Result<DynV, EvalError>
    decreases e, 0int,
{
    match e {
        ExprV::NullLit => Ok(DynV::Null),
        ExprV::BoolLit(b) => Ok(DynV::Bool(b)),
        ExprV::NumberLit(n) => Ok(DynV::Number(n)),
        ExprV::StringLit(s) => Ok(DynV::String(s)),
        ExprV::ArrayLit(es) => match spec_eval_items(es, 0nat, ctx) {
            Ok(vs) => Ok(DynV::Array(vs)),
            Err(err) => Err(err),
        },
        ExprV::ObjectLit(ps) => match spec_eval_entries(ps, 0nat, ctx, Seq::empty()) {
            Ok(vs) => Ok(DynV::Mapping(vs)),
            Err(err) => Err(err),
        },
        ExprV::GtOp(a, b) => match spec_eval(*a, ctx) {
            Err(err) => Err(err),
            Ok(va) => match spec_eval(*b, ctx) {
                Err(err) => Err(err),
                Ok(vb) => Ok(
                    DynV::Bool(spec_dyn_cmp(va, vb) == Some(core::cmp::Ordering::Greater)),
                ),
            },
        },
        ExprV::LtOp(a, b) => match spec_eval(*a, ctx) {
            Err(err) => Err(err),
            Ok(va) => match spec_eval(*b, ctx) {
                Err(err) => Err(err),
                Ok(vb) => Ok(
                    DynV::Bool(spec_dyn_cmp(va, vb) == Some(core::cmp::Ordering::Less)),
                ),
            },
        },
        ExprV::EqOp(a, b) => match spec_eval(*a, ctx) {
            Err(err) => Err(err),
            Ok(va) => match spec_eval(*b, ctx) {
                Err(err) => Err(err),
                Ok(vb) => Ok(DynV::Bool(spec_dyn_eq(va, vb))),
            },
        },
        ExprV::MatchOp(pred, obj) => {
            let subject = match obj {
                Some(oe) => spec_eval(*oe, ctx),
                None => Ok(
                    match spec_lookup(ctx, spec_root_key()) {
                        Some(v) => v,
                        None => DynV::Null,
                    },
                ),
            };
            match subject {
                Err(err) => Err(err),
                Ok(v) => Ok(DynV::Bool(spec_test(pred, v))),
            }
        },
        ExprV::Variable(path) => match spec_resolve(path, DynV::Mapping(ctx)) {
            Some(v) => Ok(v),
            None => Err(EvalError::UndefinedVariable),
        },
        ExprV::FieldPath(path) => match spec_lookup(ctx, spec_root_key()) {
            None => Err(EvalError::UndefinedVariable),
            Some(root) => match spec_resolve(path, root) {
                Some(v) => Ok(v),
                None => Err(EvalError::UndefinedVariable),
            },
        },
        ExprV::Precomputed(d) => Ok(d),
    }
}

/// The values of the elements from position `i` on, in order; the first
/// error aborts.
pub open spec fn spec_eval_items(es: Seq<ExprV>, i: nat, ctx: Seq<(Seq<u8>, DynV)>) -> Result<
    Seq<DynV>,
    EvalError,
>
    decreases es, es.len() - i,
{
    if i >= es.len() {
        Ok(Seq::empty())
    } else {
        match spec_eval(es[i as int], ctx) {
            Err(err) => Err(err),
            Ok(v) => match spec_eval_items(es, (i + 1) as nat, ctx) {
                Err(err) => Err(err),
                Ok(rest) => Ok(rest.insert(0, v)),
            },
        }
    }
}

/// The evaluated entries from position `i` on, inserted in declaration
/// order onto `acc`: a repeated key keeps its first position and takes the
/// later value, as an ordered map's insertion does. The first error aborts.
pub open spec fn spec_eval_entries(
    ps: Seq<(Seq<u8>, ExprV)>,
    i: nat,
    ctx: Seq<(Seq<u8>, DynV)>,
    acc: Seq<(Seq<u8>, DynV)>,
) -> Result<Seq<(Seq<u8>, DynV)>, EvalError>
    decreases ps, ps.len() - i,
{
    if i >= ps.len() {
        Ok(acc)
    } else {
        match spec_eval(ps[i as int].1, ctx) {
            Err(err) => Err(err),
            Ok(v) => spec_eval_entries(
                ps,
                (i + 1) as nat,
                ctx,
                spec_ent_set(acc, ps[i as int].0, v),
            ),
        }
    }
}

impl Expression {
    /// Evaluates this expression under the context. The context comes back
    /// exactly as it went in, whether the evaluation succeeds or fails.
    pub fn eval_with_context(&self, context: &mut Context) -> (r: Result<Dynamic, EvalError>)
        requires
            old(context).wf(),
        ensures
            final(context).wf(),
            final(context).entries() == old(context).entries(),
            view_res(r) == spec_eval(crate::ast_views::view_expr(*self), old(context).entries()),
        decreases *self, 1int,
    {
        match self {
            Expression::Literal(l) => l.eval_with_context(context),
            Expression::Operator(op) => op.eval_with_context(context),
            Expression::Variable(v) => v.eval_with_context(context),
            Expression::FieldPath(f) => f.eval_with_context(context),
            Expression::Precomputed(d) => Ok(copy_dynamic(d)),
        }
    }
}

impl ExprLiteral {
    /// Evaluates a literal expression.
    pub fn eval_with_context(&self, context: &mut Context) -> (r: Result<Dynamic, EvalError>)
        requires
            old(context).wf(),
        ensures
            final(context).wf(),
            final(context).entries() == old(context).entries(),
            view_res(r) == spec_eval(crate::ast_views::view_literal(*self), old(
                context,
            ).entries()),
        decreases *self, 1int,
    {
        match self {
            ExprLiteral::Null(n) => n.eval_with_context(context),
            ExprLiteral::Number(n) => n.eval_with_context(context),
            ExprLiteral::Bool(b) => b.eval_with_context(context),
            ExprLiteral::String(s) => s.eval_with_context(context),
            ExprLiteral::Array(a) => a.eval_with_context(context),
            ExprLiteral::Object(o) => o.eval_with_context(context),
        }
    }
}

impl crate::expression::NullLiteral {
    pub fn eval_with_context(&self, context: &mut Context) -> (r: Result<Dynamic, EvalError>)
        requires
            old(context).wf(),
        ensures
            final(context).wf(),
            final(context).entries() == old(context).entries(),
            view_res(r) == Ok::<DynV, EvalError>(DynV::Null),
    {
        Ok(Dynamic::Null)
    }
}

impl crate::expression::BoolLiteral {
    pub fn eval_with_context(&self, context: &mut Context) -> (r: Result<Dynamic, EvalError>)
        requires
            old(context).wf(),
        ensures
            final(context).wf(),
            final(context).entries() == old(context).entries(),
            view_res(r) == Ok::<DynV, EvalError>(DynV::Bool(self.value)),
    {
        Ok(Dynamic::Bool(self.value))
    }
}

impl crate::expression::NumberLiteral {
    pub fn eval_with_context(&self, context: &mut Context) -> (r: Result<Dynamic, EvalError>)
        requires
            old(context).wf(),
        ensures
            final(context).wf(),
            final(context).entries() == old(context).entries(),
            view_res(r) == Ok::<DynV, EvalError>(DynV::Number(self.value)),
    {
        Ok(Dynamic::Number(self.value))
    }
}

impl crate::expression::StringLiteral {
    pub fn eval_with_context(&self, context: &mut Context) -> (r: Result<Dynamic, EvalError>)
        requires
            old(context).wf(),
        ensures
            final(context).wf(),
            final(context).entries() == old(context).entries(),
            view_res(r) == Ok::<DynV, EvalError>(DynV::String(self.value@)),
    {
        Ok(Dynamic::String(copy_bytes(self.value.as_slice())))
    }
}

impl crate::expression::ArrayLiteral {
    /// Evaluates each element in order and builds an array value.
    pub fn eval_with_context(&self, context: &mut Context) -> (r: Result<Dynamic, EvalError>)
        requires
            old(context).wf(),
        ensures
            final(context).wf(),
            final(context).entries() == old(context).entries(),
            view_res(r) == spec_eval(
                ExprV::ArrayLit(crate::ast_views::view_exprs(self.value@)),
                old(context).entries(),
            ),
        decreases *self, 0int,
    {
        match eval_items(&self.value, 0, context) {
            Ok(items) => Ok(Dynamic::Array(items)),
            Err(err) => Err(err),
        }
    }
}

impl crate::expression::ObjectLiteral {
    /// Evaluates each entry's value in declaration order and builds an
    /// owned-mapping object.
    pub fn eval_with_context(&self, context: &mut Context) -> (r: Result<Dynamic, EvalError>)
        requires
            old(context).wf(),
        ensures
            final(context).wf(),
            final(context).entries() == old(context).entries(),
            view_res(r) == spec_eval(
                ExprV::ObjectLit(crate::ast_views::view_expr_ent(self.value@)),
                old(context).entries(),
            ),
        decreases *self, 0int,
    {
        let acc: Vec<(Vec<u8>, Dynamic)> = Vec::new();
        proof {
            assert(crate::views::view_ent(acc@) =~= Seq::<(Seq<u8>, DynV)>::empty());
        }
        match eval_entries(&self.value, 0, context, acc) {
            Ok(ents) => Ok(Dynamic::Object(crate::dynamic::Object::Mapping(ents))),
            Err(err) => Err(err),
        }
    }
}

fn eval_items(es: &Vec<Expression>, i: usize, context: &mut Context) -> (r: Result<
    Vec<Dynamic>,
    EvalError,
>)
    requires
        old(context).wf(),
        i <= es@.len(),
    ensures
        final(context).wf(),
        final(context).entries() == old(context).entries(),
        view_res_arr(r) == spec_eval_items(crate::ast_views::view_exprs(es@), i as nat, old(
            context,
        ).entries()),
    decreases es@, es@.len() - i,
{
    proof {
        crate::ast_views::lemma_view_exprs_len(es@);
        if i < es@.len() {
            crate::ast_views::lemma_view_exprs_index(es@, i as int);
        }
    }
    if i == es.len() {
        let out: Vec<Dynamic> = Vec::new();
        Ok(out)
    } else {
        let head = match es[i].eval_with_context(context) {
            Ok(v) => v,
            Err(err) => {
                return Err(err);
            },
        };
        let mut rest = match eval_items(es, i + 1, context) {
            Ok(v) => v,
            Err(err) => {
                return Err(err);
            },
        };
        let ghost rest_view = crate::views::view_arr(rest@);
        rest.insert(0, head);
        proof {
            assert(crate::views::view_arr(rest@) =~= rest_view.insert(0, view_dyn(head)));
        }
        Ok(rest)
    }
}

fn eval_entries(
    ps: &Vec<(Vec<u8>, Expression)>,
    i: usize,
    context: &mut Context,
    acc: Vec<(Vec<u8>, Dynamic)>,
) -> (r: Result<Vec<(Vec<u8>, Dynamic)>, EvalError>)
    requires
        old(context).wf(),
        i <= ps@.len(),
    ensures
        final(context).wf(),
        final(context).entries() == old(context).entries(),
        view_res_ent(r) == spec_eval_entries(
            crate::ast_views::view_expr_ent(ps@),
            i as nat,
            old(context).entries(),
            crate::views::view_ent(acc@),
        ),
    decreases ps@, ps@.len() - i,
{
    proof {
        crate::ast_views::lemma_view_expr_ent_len(ps@);
        if i < ps@.len() {
            crate::ast_views::lemma_view_expr_ent_index(ps@, i as int);
        }
    }
    if i == ps.len() {
        Ok(acc)
    } else {
        let key = copy_bytes(ps[i].0.as_slice());
        let head = match ps[i].1.eval_with_context(context) {
            Ok(v) => v,
            Err(err) => {
                return Err(err);
            },
        };
        let mut acc = acc;
        insert_dyn_entry(&mut acc, key, head);
        eval_entries(ps, i + 1, context, acc)
    }
}

fn find_dyn_key(p: &Vec<(Vec<u8>, Dynamic)>, key: &[u8], i: usize) -> (r: Option<usize>)
    requires
        i <= p@.len(),
    ensures
        match r {
            Some(j) => Some(j as int) == spec_find_entry(
                crate::views::view_ent(p@),
                key@,
                i as nat,
            ) && j < p@.len(),
            None => spec_find_entry(crate::views::view_ent(p@), key@, i as nat) is None,
        },
    decreases p@.len() - i,
{
    if i >= p.len() {
        None
    } else if crate::bytes::bytes_eq(p[i].0.as_slice(), key) {
        Some(i)
    } else {
        find_dyn_key(p, key, i + 1)
    }
}

/// Inserts an evaluated object entry, replacing the value of an existing
/// key in place.
fn insert_dyn_entry(out: &mut Vec<(Vec<u8>, Dynamic)>, key: Vec<u8>, v: Dynamic)
    ensures
        crate::views::view_ent(final(out)@) == spec_ent_set(
            crate::views::view_ent(old(out)@),
            key@,
            view_dyn(v),
        ),
{
    let ghost old_view = crate::views::view_ent(out@);
    match find_dyn_key(out, key.as_slice(), 0) {
        Some(i) => {
            out.set(i, (key, v));
            proof {
                assert(crate::views::view_ent(out@) =~= old_view.update(
                    i as int,
                    (key@, view_dyn(v)),
                ));
            }
        },
        None => {
            out.push((key, v));
            proof {
                assert(out@.drop_last() =~= old(out)@);
                assert(crate::views::view_ent(out@) =~= old_view.push((key@, view_dyn(v))));
            }
        },
    }
}

impl crate::expression::ExprOperator {
    /// Evaluates an operator call.
    pub fn eval_with_context(&self, context: &mut Context) -> (r: Result<Dynamic, EvalError>)
        requires
            old(context).wf(),
        ensures
            final(context).wf(),
            final(context).entries() == old(context).entries(),
            view_res(r) == spec_eval(crate::ast_views::view_expr_op(*self), old(
                context,
            ).entries()),
        decreases *self, 1int,
    {
        match self {
            crate::expression::ExprOperator::Gt(g) => g.eval_with_context(context),
            crate::expression::ExprOperator::Lt(l) => l.eval_with_context(context),
            crate::expression::ExprOperator::Eq(q) => q.eval_with_context(context),
            crate::expression::ExprOperator::Match(m) => m.eval_with_context(context),
        }
    }
}

impl crate::expression::GtOperator {
    /// Evaluates both arguments and compares them: true exactly when the
    /// first is strictly greater.
    pub fn eval_with_context(&self, context: &mut Context) -> (r: Result<Dynamic, EvalError>)
        requires
            old(context).wf(),
        ensures
            final(context).wf(),
            final(context).entries() == old(context).entries(),
            view_res(r) == spec_eval(
                ExprV::GtOp(
                    Box::new(crate::ast_views::view_expr(self.arg1)),
                    Box::new(crate::ast_views::view_expr(self.arg2)),
                ),
                old(context).entries(),
            ),
        decreases *self, 0int,
    {
        let arg1 = match self.arg1.eval_with_context(context) {
            Ok(v) => v,
            Err(err) => {
                return Err(err);
            },
        };
        let arg2 = match self.arg2.eval_with_context(context) {
            Ok(v) => v,
            Err(err) => {
                return Err(err);
            },
        };
        Ok(
            Dynamic::Bool(
                matches!(dyn_cmp(&arg1, &arg2), Some(core::cmp::Ordering::Greater)),
            ),
        )
    }
}

impl crate::expression::LtOperator {
    /// Evaluates both arguments and compares them: true exactly when the
    /// first is strictly less.
    pub fn eval_with_context(&self, context: &mut Context) -> (r: Result<Dynamic, EvalError>)
        requires
            old(context).wf(),
        ensures
            final(context).wf(),
            final(context).entries() == old(context).entries(),
            view_res(r) == spec_eval(
                ExprV::LtOp(
                    Box::new(crate::ast_views::view_expr(self.arg1)),
                    Box::new(crate::ast_views::view_expr(self.arg2)),
                ),
                old(context).entries(),
            ),
        decreases *self, 0int,
    {
        let arg1 = match self.arg1.eval_with_context(context) {
            Ok(v) => v,
            Err(err) => {
                return Err(err);
            },
        };
        let arg2 = match self.arg2.eval_with_context(context) {
            Ok(v) => v,
            Err(err) => {
                return Err(err);
            },
        };
        Ok(Dynamic::Bool(matches!(dyn_cmp(&arg1, &arg2), Some(core::cmp::Ordering::Less))))
    }
}

impl crate::expression::EqOperator {
    /// Evaluates both arguments and tests their structural equality.
    pub fn eval_with_context(&self, context: &mut Context) -> (r: Result<Dynamic, EvalError>)
        requires
            old(context).wf(),
        ensures
            final(context).wf(),
            final(context).entries() == old(context).entries(),
            view_res(r) == spec_eval(
                ExprV::EqOp(
                    Box::new(crate::ast_views::view_expr(self.arg1)),
                    Box::new(crate::ast_views::view_expr(self.arg2)),
                ),
                old(context).entries(),
            ),
        decreases *self, 0int,
    {
        let arg1 = match self.arg1.eval_with_context(context) {
            Ok(v) => v,
            Err(err) => {
                return Err(err);
            },
        };
        let arg2 = match self.arg2.eval_with_context(context) {
            Ok(v) => v,
            Err(err) => {
                return Err(err);
            },
        };
        Ok(Dynamic::Bool(dyn_eq(&arg1, &arg2)))
    }
}

impl crate::expression::MatchOperator {
    /// Evaluates the matched object (the `ROOT` binding where none is
    /// given), installs it as `CURRENT`, tests the predicate, and restores
    /// the prior `CURRENT` binding.
    pub fn eval_with_context(&self, context: &mut Context) -> (r: Result<Dynamic, EvalError>)
        requires
            old(context).wf(),
        ensures
            final(context).wf(),
            final(context).entries() == old(context).entries(),
            view_res(r) == spec_eval(
                ExprV::MatchOp(
                    view_pred(self.predicate),
                    match self.object {
                        Some(e) => Some(Box::new(crate::ast_views::view_expr(e))),
                        None => None,
                    },
                ),
                old(context).entries(),
            ),
        decreases *self, 0int,
    {
        let subject = match &self.object {
            Some(oe) => {
                match oe.eval_with_context(context) {
                    Ok(v) => v,
                    Err(err) => {
                        return Err(err);
                    },
                }
            },
            None => context.get_root(),
        };
        let ghost old_ents = old(context).entries();
        let ghost subject_v = view_dyn(subject);
        let prev = context.set_current(subject);
        proof {
            lemma_ent_set_preserves_keys(
                old_ents,
                spec_current_key(),
                spec_current_key(),
                subject_v,
            );
        }
        let result = self.predicate.test(context);
        let p0 = match prev {
            Some(p) => p,
            None => Dynamic::Null,
        };
        let _ = context.set_current(p0);
        proof {
            lemma_ent_set_restore(old_ents, spec_current_key(), subject_v);
        }
        Ok(Dynamic::Bool(result))
    }
}

impl crate::expression::ExprVariable {
    /// Resolves the path against the whole variable environment.
    pub fn eval_with_context(&self, context: &mut Context) -> (r: Result<Dynamic, EvalError>)
        requires
            old(context).wf(),
        ensures
            final(context).wf(),
            final(context).entries() == old(context).entries(),
            view_res(r) == spec_eval(
                ExprV::Variable(view_path(self.var_path)),
                old(context).entries(),
            ),
    {
        match self.var_path.resolve(context.as_dynamic()) {
            Some(v) => Ok(v),
            None => Err(EvalError::UndefinedVariable),
        }
    }
}

impl crate::expression::ExprFieldPath {
    /// Resolves the path against the `ROOT` binding.
    pub fn eval_with_context(&self, context: &mut Context) -> (r: Result<Dynamic, EvalError>)
        requires
            old(context).wf(),
        ensures
            final(context).wf(),
            final(context).entries() == old(context).entries(),
            view_res(r) == spec_eval(
                ExprV::FieldPath(view_path(self.field_path)),
                old(context).entries(),
            ),
    {
        let k = crate::context::root_key();
        match context.get_variable(k.as_slice()) {
            None => Err(EvalError::UndefinedVariable),
            Some(root) => match self.field_path.resolve(&root) {
                Some(v) => Ok(v),
                None => Err(EvalError::UndefinedVariable),
            },
        }
    }
}

} // verus!
