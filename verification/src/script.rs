//! The script: a parsed, executable program consisting of a single
//! top-level expression, with the whole-text parse entry points.

use vstd::prelude::*;
use crate::ast::Predicate;
use crate::ast_views::{view_expr, view_pred, ExprV, PredV};
use crate::context::{spec_current_key, spec_root_key, Context};
use crate::dynamic::Dynamic;
use crate::eval::{spec_eval, view_res};
use crate::expr_parser::spec_expression;
use crate::expression::Expression;
use crate::parser::{skip_ws, spec_predicate, spec_ws, ParseError, Step};
use crate::views::{view_dyn, DynV};
use crate::EvalError;

verus! {

/// A parsed script, immutable thereafter; it may be evaluated any number of
/// times, each evaluation leaving its context as it found it.
pub struct Script(pub Expression);

/// The parse of a whole script: an expression with whitespace allowed on
/// both sides, every byte consumed.
pub open spec fn spec_script(s: Seq<u8>) -> Result<ExprV, ParseError> {
    let j = spec_ws(s, 0);
    match spec_expression(s, j) {
        Step::Hit(n, e) => {
            let k = spec_ws(s, n as nat);
            if k == s.len() {
                Ok(e)
            } else {
                Err(ParseError { pos: k as usize })
            }
        },
        Step::Miss(p) => Err(ParseError { pos: p }),
        Step::Fail(p) => Err(ParseError { pos: p }),
    }
}

/// Parses a whole script from its UTF-8 text.
pub fn parse_script(s: &[u8]) -> (r: Result<Script, ParseError>)
    ensures
        (match r {
            Ok(sc) => spec_script(s@) == Ok::<ExprV, ParseError>(view_expr(sc.0)),
            Err(p) => spec_script(s@) == Err::<ExprV, ParseError>(p),
        }),
{
    let j = skip_ws(s, 0);
    match crate::expr_parser::expression(s, j) {
        Step::Hit(n, e) => {
            let k = skip_ws(s, n);
            if k == s.len() {
                Ok(Script(e))
            } else {
                Err(ParseError { pos: k })
            }
        },
        Step::Miss(p) => Err(ParseError { pos: p }),
        Step::Fail(p) => Err(ParseError { pos: p }),
    }
}

/// The parse of a whole predicate: whitespace allowed on both sides, every
/// byte consumed.
pub open spec fn spec_parse_predicate(s: Seq<u8>) -> Result<PredV, ParseError> {
    let j = spec_ws(s, 0);
    match spec_predicate(s, j) {
        Step::Hit(n, pr) => {
            let k = spec_ws(s, n as nat);
            if k == s.len() {
                Ok(pr)
            } else {
                Err(ParseError { pos: k as usize })
            }
        },
        Step::Miss(p) => Err(ParseError { pos: p }),
        Step::Fail(p) => Err(ParseError { pos: p }),
    }
}

/// Parses a whole predicate from its UTF-8 text.
pub fn parse_predicate(s: &[u8]) -> (r: Result<Predicate, ParseError>)
    ensures
        (match r {
            Ok(pr) => spec_parse_predicate(s@) == Ok::<PredV, ParseError>(view_pred(pr)),
            Err(p) => spec_parse_predicate(s@) == Err::<PredV, ParseError>(p),
        }),
{
    let j = skip_ws(s, 0);
    match crate::parser::predicate(s, j) {
        Step::Hit(n, pr) => {
            let k = skip_ws(s, n);
            if k == s.len() {
                Ok(pr)
            } else {
                Err(ParseError { pos: k })
            }
        },
        Step::Miss(p) => Err(ParseError { pos: p }),
        Step::Fail(p) => Err(ParseError { pos: p }),
    }
}

impl Script {
    /// Evaluates the script under the given context, which comes back
    /// exactly as it went in.
    pub fn eval_with_context(&self, context: &mut Context) -> (r: Result<Dynamic, EvalError>)
        requires
            old(context).wf(),
        ensures
            final(context).wf(),
            final(context).entries() == old(context).entries(),
            view_res(r) == spec_eval(view_expr(self.0), old(context).entries()),
    {
        self.0.eval_with_context(context)
    }

    /// Evaluates the script under a fresh context whose `ROOT` is `root`.
    pub fn eval_with_root(&self, root: Dynamic) -> (r: Result<Dynamic, EvalError>)
        ensures
            view_res(r) == spec_eval(
                view_expr(self.0),
                seq![
                    (spec_root_key(), view_dyn(root)),
                    (spec_current_key(), DynV::Null),
                ],
            ),
    {
        let mut context = Context::new();
        let ghost target = seq![
            (spec_root_key(), view_dyn(root)),
            (spec_current_key(), DynV::Null),
        ];
        let _ = context.set_variable(crate::context::root_key(), root);
        proof {
            assert(context.entries() =~= target);
        }
        self.eval_with_context(&mut context)
    }

    /// Evaluates the script under a fresh context with `ROOT` and `CURRENT`
    /// both `Null`.
    pub fn eval(&self) -> (r: Result<Dynamic, EvalError>)
        ensures
            view_res(r) == spec_eval(
                view_expr(self.0),
                seq![
                    (spec_root_key(), DynV::Null),
                    (spec_current_key(), DynV::Null),
                ],
            ),
    {
        let mut context = Context::new();
        self.eval_with_context(&mut context)
    }
}

} // verus!
