//! The grammar of the surface syntax, expression side: variable and
//! field-path references, operator calls, and literal expressions, down to
//! the `$match` operator with its order-insensitive named arguments. Every
//! parser is pinned to a specification function over the byte sequence, as
//! in the predicate grammar.
//!
//! Inside braces the parser peeks at the first quoted token: one that begins
//! with `$` commits the body to an operator call; anything else falls back
//! to an object literal.

use vstd::prelude::*;
use crate::ast::{Predicate, VariablePath};
use crate::ast_views::{
    lemma_view_expr_ent_index, lemma_view_expr_ent_len, lemma_view_exprs_index,
    lemma_view_exprs_len, view_expr, view_expr_ent, view_expr_op, view_exprs, view_literal,
    view_path, view_pred, ExprV, PathV, PredV,
};
use crate::expression::{
    ArrayLiteral, BoolLiteral, EqOperator, ExprFieldPath, ExprLiteral, ExprOperator, ExprVariable,
    Expression, GtOperator, LtOperator, MatchOperator, NullLiteral, NumberLiteral, ObjectLiteral,
    StringLiteral,
};
use crate::parser::{
    boolean, escaped_string, field_path, null, number, operator_name, predicate, skip_ws,
    spec_boolean, spec_eq_name, spec_escaped_string, spec_field_path, spec_find_kv, spec_gt_name,
    spec_lt_name, spec_null, spec_number, spec_operator_name, spec_predicate, spec_set_kv,
    spec_string, spec_ws, step_view, string, Step,
};

verus! {

broadcast use
    vstd::slice::axiom_spec_len,
    lemma_view_exprs_len,
    lemma_view_exprs_index,
    lemma_view_expr_ent_len,
    lemma_view_expr_ent_index,
;

/// The bytes of the operator name `$match`.
pub open spec fn spec_match_name() -> Seq<u8> {
    seq![36u8, 109u8, 97u8, 116u8, 99u8, 104u8]
}

/// The bytes of the named-argument key `predicate`.
pub open spec fn spec_predicate_key() -> Seq<u8> {
    seq![112u8, 114u8, 101u8, 100u8, 105u8, 99u8, 97u8, 116u8, 101u8]
}

/// The bytes of the named-argument key `object`.
pub open spec fn spec_object_key() -> Seq<u8> {
    seq![111u8, 98u8, 106u8, 101u8, 99u8, 116u8]
}

/// The view of a `$match` argument pair.
pub open spec fn view_match_pair(pr: (Predicate, Option<Expression>)) -> (
    PredV,
    Option<Box<ExprV>>,
) {
    (
        view_pred(pr.0),
        match pr.1 {
            Some(e) => Some(Box::new(view_expr(e))),
            None => None,
        },
    )
}

/// A variable reference: a quoted token beginning `$$`, the rest of the
/// token a committed path.
pub open spec fn spec_variable_expr(s: Seq<u8>, i: nat) -> Step<PathV> {
    match spec_escaped_string(s, i) {
        Step::Miss(p) => Step::Miss(p),
        Step::Fail(p) => Step::Fail(p),
        Step::Hit(n, span) => {
            if span.0 + 2 <= span.1 && s[span.0 as int] == 36 && s[span.0 as int + 1] == 36 {
                match spec_field_path(s, (span.0 + 2) as nat, span.1 as nat) {
                    Step::Hit(_, p) => Step::Hit(n, p),
                    Step::Miss(p) => Step::Fail(p),
                    Step::Fail(p) => Step::Fail(p),
                }
            } else {
                Step::Miss(i as usize)
            }
        },
    }
}

pub fn variable_expr(s: &[u8], i: usize) -> (r: Step<VariablePath>)
    requires
        i <= s@.len(),
    ensures
        step_view(r, |p: VariablePath| view_path(p)) == spec_variable_expr(s@, i as nat),
        r matches Step::Hit(n, _) ==> i < n <= s@.len(),
{
    match escaped_string(s, i) {
        Step::Miss(p) => Step::Miss(p),
        Step::Fail(p) => Step::Fail(p),
        Step::Hit(n, span) => {
            if span.1 - span.0 >= 2 && s[span.0] == 36 && s[span.0 + 1] == 36 {
                match field_path(s, span.0 + 2, span.1) {
                    Step::Hit(_, p) => Step::Hit(n, p),
                    Step::Miss(p) => Step::Fail(p),
                    Step::Fail(p) => Step::Fail(p),
                }
            } else {
                Step::Miss(i)
            }
        },
    }
}

/// A field-path reference: a quoted token beginning `$`, the rest a
/// committed path resolved against `ROOT`.
pub open spec fn spec_field_path_expr(s: Seq<u8>, i: nat) -> Step<PathV> {
    match spec_escaped_string(s, i) {
        Step::Miss(p) => Step::Miss(p),
        Step::Fail(p) => Step::Fail(p),
        Step::Hit(n, span) => {
            if span.0 + 1 <= span.1 && s[span.0 as int] == 36 {
                match spec_field_path(s, (span.0 + 1) as nat, span.1 as nat) {
                    Step::Hit(_, p) => Step::Hit(n, p),
                    Step::Miss(p) => Step::Fail(p),
                    Step::Fail(p) => Step::Fail(p),
                }
            } else {
                Step::Miss(i as usize)
            }
        },
    }
}

pub fn field_path_expr(s: &[u8], i: usize) -> (r: Step<VariablePath>)
    requires
        i <= s@.len(),
    ensures
        step_view(r, |p: VariablePath| view_path(p)) == spec_field_path_expr(s@, i as nat),
        r matches Step::Hit(n, _) ==> i < n <= s@.len(),
{
    match escaped_string(s, i) {
        Step::Miss(p) => Step::Miss(p),
        Step::Fail(p) => Step::Fail(p),
        Step::Hit(n, span) => {
            if span.1 - span.0 >= 1 && s[span.0] == 36 {
                match field_path(s, span.0 + 1, span.1) {
                    Step::Hit(_, p) => Step::Hit(n, p),
                    Step::Miss(p) => Step::Fail(p),
                    Step::Fail(p) => Step::Fail(p),
                }
            } else {
                Step::Miss(i)
            }
        },
    }
}

/// One `"key": expression` pair for a given key name, whitespace around the
/// value; the value parser is not committed.
pub open spec fn spec_pair_predicate(s: Seq<u8>, i: nat) -> Step<PredV> {
    match spec_operator_name(s, i, spec_predicate_key()) {
        Step::Miss(p) => Step::Miss(p),
        Step::Fail(p) => Step::Fail(p),
        Step::Hit(k, _) => {
            let q = spec_ws(s, k as nat);
            if !(i < q <= s.len()) {
                Step::Fail(q as usize)
            } else {
                match spec_predicate(s, q) {
                    Step::Hit(n, pr) => Step::Hit(spec_ws(s, n as nat) as usize, pr),
                    Step::Miss(p) => Step::Miss(p),
                    Step::Fail(p) => Step::Fail(p),
                }
            }
        },
    }
}

fn pair_predicate(s: &[u8], i: usize) -> (r: Step<Predicate>)
    requires
        i <= s@.len(),
    ensures
        step_view(r, |p: Predicate| view_pred(p)) == spec_pair_predicate(s@, i as nat),
        r matches Step::Hit(n, _) ==> i < n <= s@.len(),
{
    let key: [u8; 9] = [112, 114, 101, 100, 105, 99, 97, 116, 101];
    proof {
        assert(key@ =~= spec_predicate_key());
    }
    match operator_name(s, i, key.as_slice()) {
        Step::Miss(p) => Step::Miss(p),
        Step::Fail(p) => Step::Fail(p),
        Step::Hit(k, _) => {
            let q = skip_ws(s, k);
            match predicate(s, q) {
                Step::Hit(n, pr) => Step::Hit(skip_ws(s, n), pr),
                Step::Miss(p) => Step::Miss(p),
                Step::Fail(p) => Step::Fail(p),
            }
        },
    }
}

/// An expression: a variable reference, a field-path reference, an operator
/// call, or a literal, tried in that order.
pub open spec fn spec_expression(s: Seq<u8>, i: nat) -> Step<ExprV>
    decreases s.len() - i, 9int,
{
    match spec_variable_expr(s, i) {
        Step::Hit(n, p) => Step::Hit(n, ExprV::Variable(p)),
        Step::Fail(p) => Step::Fail(p),
        Step::Miss(_) => match spec_field_path_expr(s, i) {
            Step::Hit(n, p) => Step::Hit(n, ExprV::FieldPath(p)),
            Step::Fail(p) => Step::Fail(p),
            Step::Miss(_) => match spec_operator_expr(s, i) {
                Step::Hit(n, e) => Step::Hit(n, e),
                Step::Fail(p) => Step::Fail(p),
                Step::Miss(_) => spec_literal_expr(s, i),
            },
        },
    }
}

/// A literal expression: `null`, a number, a boolean, a string, an array or
/// an object, whitespace allowed around each, tried in that order.
pub open spec fn spec_literal_expr(s: Seq<u8>, i: nat) -> Step<ExprV>
    decreases s.len() - i, 8int,
{
    match spec_null(s, i) {
        Step::Hit(n, _) => Step::Hit(n, ExprV::NullLit),
        Step::Fail(p) => Step::Fail(p),
        Step::Miss(_) => {
            let j = spec_ws(s, i);
            if !(i <= j <= s.len()) {
                Step::Miss(i as usize)
            } else {
                match spec_number(s, j) {
                Step::Hit(n, v) => Step::Hit(spec_ws(s, n as nat) as usize, ExprV::NumberLit(v)),
                Step::Fail(p) => Step::Fail(p),
                Step::Miss(_) => match spec_boolean(s, i) {
                    Step::Hit(n, b) => Step::Hit(n, ExprV::BoolLit(b)),
                    Step::Fail(p) => Step::Fail(p),
                    Step::Miss(_) => match spec_string(s, j) {
                        Step::Hit(n, v) => Step::Hit(
                            spec_ws(s, n as nat) as usize,
                            ExprV::StringLit(v),
                        ),
                        Step::Fail(p) => Step::Fail(p),
                        Step::Miss(_) => match spec_expr_array(s, j) {
                            Step::Hit(n, es) => Step::Hit(
                                spec_ws(s, n as nat) as usize,
                                ExprV::ArrayLit(es),
                            ),
                            Step::Fail(p) => Step::Fail(p),
                            Step::Miss(_) => match spec_expr_object(s, j) {
                                Step::Hit(n, ps) => Step::Hit(
                                    spec_ws(s, n as nat) as usize,
                                    ExprV::ObjectLit(ps),
                                ),
                                Step::Fail(p) => Step::Fail(p),
                                Step::Miss(p) => Step::Miss(p),
                            },
                        },
                    },
                }
                }
            }
        },
    }
}

/// A bracketed, comma-separated list of expressions, the closing bracket
/// committed.
pub open spec fn spec_expr_array(s: Seq<u8>, i: nat) -> Step<Seq<ExprV>>
    decreases s.len() - i, 7int,
{
    let j = spec_ws(s, i);
    if j < s.len() && s[j as int] == 91 {
        let q0 = spec_ws(s, (j + 1) as nat);
        if !(i < q0 <= s.len()) {
            Step::Fail(q0 as usize)
        } else {
            match spec_expression(s, q0) {
                Step::Fail(p) => Step::Fail(p),
                Step::Miss(_) => spec_close_exprs(s, q0, Seq::empty()),
                Step::Hit(k0, e0) => {
                    let k = spec_ws(s, k0 as nat);
                    if !(q0 < k <= s.len()) {
                        Step::Fail(k as usize)
                    } else {
                        spec_exprs_tail(s, k, seq![e0])
                    }
                },
            }
        }
    } else {
        Step::Miss(i as usize)
    }
}

/// The rest of an expression list and its committed closing bracket.
pub open spec fn spec_exprs_tail(s: Seq<u8>, p: nat, acc: Seq<ExprV>) -> Step<Seq<ExprV>>
    decreases s.len() - p, 8int,
{
    match spec_expr_list(s, p, acc) {
        Step::Fail(pp) => Step::Fail(pp),
        Step::Miss(pp) => Step::Miss(pp),
        Step::Hit(endp, es) => spec_close_exprs(s, endp as nat, es),
    }
}

/// The committed closing bracket of an expression list.
pub open spec fn spec_close_exprs(s: Seq<u8>, p: nat, es: Seq<ExprV>) -> Step<Seq<ExprV>> {
    let q = spec_ws(s, p);
    if q < s.len() && s[q as int] == 93 {
        Step::Hit(spec_ws(s, (q + 1) as nat) as usize, es)
    } else {
        Step::Fail(q as usize)
    }
}

/// Further comma-separated expressions; a missing element after a comma ends
/// the list before the comma.
pub open spec fn spec_expr_list(s: Seq<u8>, p: nat, acc: Seq<ExprV>) -> Step<Seq<ExprV>>
    decreases s.len() - p, 7int,
{
    let c = spec_ws(s, p);
    if c < s.len() && s[c as int] == 44 {
        let q = spec_ws(s, (c + 1) as nat);
        if !(p < q <= s.len()) {
            Step::Fail(q as usize)
        } else {
            match spec_expression(s, q) {
                Step::Fail(pp) => Step::Fail(pp),
                Step::Miss(_) => Step::Hit(p as usize, acc),
                Step::Hit(k0, e) => {
                    let k = spec_ws(s, k0 as nat);
                    if !(p < k <= s.len()) {
                        Step::Fail(k as usize)
                    } else {
                        spec_expr_list(s, k, acc.push(e))
                    }
                },
            }
        }
    } else {
        Step::Hit(p as usize, acc)
    }
}

/// A brace-enclosed object of expressions: keys inserted in order with
/// replacement; the closing brace committed.
pub open spec fn spec_expr_object(s: Seq<u8>, i: nat) -> Step<Seq<(Seq<u8>, ExprV)>>
    decreases s.len() - i, 7int,
{
    let j = spec_ws(s, i);
    if j < s.len() && s[j as int] == 123 {
        let q0 = spec_ws(s, (j + 1) as nat);
        if !(i < q0 <= s.len()) {
            Step::Fail(q0 as usize)
        } else {
            match spec_expr_entry(s, q0) {
                Step::Fail(p) => Step::Fail(p),
                Step::Miss(_) => spec_close_expr_obj(s, q0, Seq::empty()),
                Step::Hit(k, kv) => {
                    if !(q0 < k as nat <= s.len()) {
                        Step::Fail(k)
                    } else {
                        spec_expr_entries_tail(s, k as nat, spec_set_kv(Seq::empty(), kv.0, kv.1))
                    }
                },
            }
        }
    } else {
        Step::Miss(i as usize)
    }
}

/// The rest of an object's entries and its committed closing brace.
pub open spec fn spec_expr_entries_tail(s: Seq<u8>, p: nat, acc: Seq<(Seq<u8>, ExprV)>) -> Step<
    Seq<(Seq<u8>, ExprV)>,
>
    decreases s.len() - p, 8int,
{
    match spec_expr_entry_list(s, p, acc) {
        Step::Fail(pp) => Step::Fail(pp),
        Step::Miss(pp) => Step::Miss(pp),
        Step::Hit(endp, ents) => spec_close_expr_obj(s, endp as nat, ents),
    }
}

/// The committed closing brace of an object literal.
pub open spec fn spec_close_expr_obj(s: Seq<u8>, p: nat, ents: Seq<(Seq<u8>, ExprV)>) -> Step<
    Seq<(Seq<u8>, ExprV)>,
> {
    let q = spec_ws(s, p);
    if q < s.len() && s[q as int] == 125 {
        Step::Hit(spec_ws(s, (q + 1) as nat) as usize, ents)
    } else {
        Step::Fail(q as usize)
    }
}

/// One `"key": expression` entry of an object literal.
pub open spec fn spec_expr_entry(s: Seq<u8>, p: nat) -> Step<(Seq<u8>, ExprV)>
    decreases s.len() - p, 6int,
{
    let q = spec_ws(s, p);
    match spec_string(s, q) {
        Step::Fail(pp) => Step::Fail(pp),
        Step::Miss(pp) => Step::Miss(pp),
        Step::Hit(k0, key) => {
            let k = spec_ws(s, k0 as nat);
            if k < s.len() && s[k as int] == 58 {
                let v0 = spec_ws(s, (k + 1) as nat);
                if !(p < v0 <= s.len()) {
                    Step::Fail(v0 as usize)
                } else {
                    match spec_expression(s, v0) {
                        Step::Fail(pp) => Step::Fail(pp),
                        Step::Miss(pp) => Step::Miss(pp),
                        Step::Hit(n, e) => Step::Hit(spec_ws(s, n as nat) as usize, (key, e)),
                    }
                }
            } else {
                Step::Miss(k as usize)
            }
        },
    }
}

/// Further comma-separated object entries.
pub open spec fn spec_expr_entry_list(s: Seq<u8>, p: nat, acc: Seq<(Seq<u8>, ExprV)>) -> Step<
    Seq<(Seq<u8>, ExprV)>,
>
    decreases s.len() - p, 7int,
{
    let c = spec_ws(s, p);
    if c < s.len() && s[c as int] == 44 {
        let q = spec_ws(s, (c + 1) as nat);
        if !(p < q <= s.len()) {
            Step::Fail(q as usize)
        } else {
            match spec_expr_entry(s, q) {
                Step::Fail(pp) => Step::Fail(pp),
                Step::Miss(_) => Step::Hit(p as usize, acc),
                Step::Hit(k, kv) => {
                    if !(p < k as nat <= s.len()) {
                        Step::Fail(k)
                    } else {
                        spec_expr_entry_list(s, k as nat, spec_set_kv(acc, kv.0, kv.1))
                    }
                },
            }
        }
    } else {
        Step::Hit(p as usize, acc)
    }
}

/// An operator call: after `{`, a peeked first key beginning with `$`
/// commits the body to one of `$gt`, `$lt`, `$eq` or `$match`; the closing
/// brace is not committed, so a failed close falls back to a literal.
pub open spec fn spec_operator_expr(s: Seq<u8>, i: nat) -> Step<ExprV>
    decreases s.len() - i, 8int,
{
    let j = spec_ws(s, i);
    if j < s.len() && s[j as int] == 123 {
        let p0 = spec_ws(s, (j + 1) as nat);
        if !(i < p0 <= s.len()) {
            Step::Fail(p0 as usize)
        } else {
            match spec_escaped_string(s, p0) {
                Step::Miss(_) => Step::Miss(i as usize),
                Step::Fail(p) => Step::Fail(p),
                Step::Hit(_, span) => {
                    if span.0 < span.1 && s[span.0 as int] == 36 {
                        match spec_binary_args(s, p0, spec_gt_name()) {
                            Step::Hit(n, pr) => spec_op_close(
                                s,
                                n as nat,
                                ExprV::GtOp(Box::new(pr.0), Box::new(pr.1)),
                            ),
                            Step::Fail(p) => Step::Fail(p),
                            Step::Miss(_) => match spec_binary_args(s, p0, spec_lt_name()) {
                                Step::Hit(n, pr) => spec_op_close(
                                    s,
                                    n as nat,
                                    ExprV::LtOp(Box::new(pr.0), Box::new(pr.1)),
                                ),
                                Step::Fail(p) => Step::Fail(p),
                                Step::Miss(_) => match spec_binary_args(s, p0, spec_eq_name()) {
                                    Step::Hit(n, pr) => spec_op_close(
                                        s,
                                        n as nat,
                                        ExprV::EqOp(Box::new(pr.0), Box::new(pr.1)),
                                    ),
                                    Step::Fail(p) => Step::Fail(p),
                                    Step::Miss(_) => match spec_match_operator_expr(s, p0) {
                                        Step::Hit(n, e) => spec_op_close(s, n as nat, e),
                                        Step::Fail(p) => Step::Fail(p),
                                        Step::Miss(_) => Step::Fail(p0 as usize),
                                    },
                                },
                            },
                        }
                    } else {
                        Step::Miss(i as usize)
                    }
                },
            }
        }
    } else {
        Step::Miss(i as usize)
    }
}

/// The closing brace of an operator call; a miss, not a failure, so that the
/// whole call can fall back to an object literal.
pub open spec fn spec_op_close(s: Seq<u8>, p: nat, e: ExprV) -> Step<ExprV> {
    let q = spec_ws(s, p);
    if q < s.len() && s[q as int] == 125 {
        Step::Hit(spec_ws(s, (q + 1) as nat) as usize, e)
    } else {
        Step::Miss(q as usize)
    }
}

/// A named operator with a committed two-expression argument list.
pub open spec fn spec_binary_args(s: Seq<u8>, i: nat, name: Seq<u8>) -> Step<(ExprV, ExprV)>
    decreases s.len() - i, 7int,
{
    match spec_operator_name(s, i, name) {
        Step::Miss(p) => Step::Miss(p),
        Step::Fail(p) => Step::Fail(p),
        Step::Hit(k, _) => {
            let w1 = spec_ws(s, k as nat);
            if w1 < s.len() && s[w1 as int] == 91 {
                let w2 = spec_ws(s, (w1 + 1) as nat);
                if !(i < w2 <= s.len()) {
                    Step::Fail(w2 as usize)
                } else {
                    match spec_expression(s, w2) {
                        Step::Hit(n1, e1) => {
                            let c = spec_ws(s, n1 as nat);
                            if c < s.len() && s[c as int] == 44 {
                                let w3 = spec_ws(s, (c + 1) as nat);
                                if !(i < w3 <= s.len()) {
                                    Step::Fail(w3 as usize)
                                } else {
                                    match spec_expression(s, w3) {
                                        Step::Hit(n2, e2) => {
                                            let cb = spec_ws(s, n2 as nat);
                                            if cb < s.len() && s[cb as int] == 93 {
                                                Step::Hit(
                                                    spec_ws(
                                                        s,
                                                        spec_ws(s, (cb + 1) as nat),
                                                    ) as usize,
                                                    (e1, e2),
                                                )
                                            } else {
                                                Step::Fail(cb as usize)
                                            }
                                        },
                                        _ => Step::Fail(w3 as usize),
                                    }
                                }
                            } else {
                                Step::Fail(c as usize)
                            }
                        },
                        _ => Step::Fail(w2 as usize),
                    }
                }
            } else {
                Step::Fail(w1 as usize)
            }
        },
    }
}

/// `$match`: either the named-argument object with `predicate` and `object`
/// accepted in both orders, or a bare predicate applied to `ROOT`; the
/// argument is committed once the name has matched.
pub open spec fn spec_match_operator_expr(s: Seq<u8>, i: nat) -> Step<ExprV>
    decreases s.len() - i, 7int,
{
    match spec_operator_name(s, i, spec_match_name()) {
        Step::Miss(p) => Step::Miss(p),
        Step::Fail(p) => Step::Fail(p),
        Step::Hit(k, _) => {
            let q = spec_ws(s, k as nat);
            if !(i < q <= s.len()) {
                Step::Fail(q as usize)
            } else {
                match spec_match_named(s, q) {
                    Step::Hit(n, pr) => Step::Hit(
                        spec_ws(s, n as nat) as usize,
                        ExprV::MatchOp(pr.0, pr.1),
                    ),
                    Step::Fail(p) => Step::Fail(p),
                    Step::Miss(_) => match spec_predicate(s, q) {
                        Step::Hit(n, pr) => Step::Hit(
                            spec_ws(s, n as nat) as usize,
                            ExprV::MatchOp(pr, None),
                        ),
                        _ => Step::Fail(q as usize),
                    },
                }
            }
        },
    }
}

/// The named-argument object of `$match`: the `predicate` and `object`
/// pairs in either order, separated by a comma, the closing brace committed.
/// A missing or repeated key is a miss, never a partial parse.
pub open spec fn spec_match_named(s: Seq<u8>, i: nat) -> Step<(PredV, Option<Box<ExprV>>)>
    decreases s.len() - i, 6int,
{
    let j = spec_ws(s, i);
    if j < s.len() && s[j as int] == 123 {
        let p0 = spec_ws(s, (j + 1) as nat);
        if !(i < p0 <= s.len()) {
            Step::Fail(p0 as usize)
        } else {
            match spec_pair_predicate(s, p0) {
                Step::Fail(p) => Step::Fail(p),
                Step::Hit(k1, pr) => {
                    let c = spec_ws(s, k1 as nat);
                    if c < s.len() && s[c as int] == 44 {
                        let q2 = spec_ws(s, (c + 1) as nat);
                        if !(i < q2 <= s.len()) {
                            Step::Fail(q2 as usize)
                        } else {
                            match spec_pair_object(s, q2) {
                                Step::Hit(k2, ob) => spec_named_close(
                                    s,
                                    k2 as nat,
                                    (pr, Some(Box::new(ob))),
                                ),
                                Step::Miss(p) => Step::Miss(p),
                                Step::Fail(p) => Step::Fail(p),
                            }
                        }
                    } else {
                        Step::Miss(c as usize)
                    }
                },
                Step::Miss(_) => match spec_pair_object(s, p0) {
                    Step::Fail(p) => Step::Fail(p),
                    Step::Miss(p) => Step::Miss(p),
                    Step::Hit(k1, ob) => {
                        let c = spec_ws(s, k1 as nat);
                        if c < s.len() && s[c as int] == 44 {
                            let q2 = spec_ws(s, (c + 1) as nat);
                            if !(i < q2 <= s.len()) {
                                Step::Fail(q2 as usize)
                            } else {
                                match spec_pair_predicate(s, q2) {
                                    Step::Hit(k2, pr) => spec_named_close(
                                        s,
                                        k2 as nat,
                                        (pr, Some(Box::new(ob))),
                                    ),
                                    Step::Miss(p) => Step::Miss(p),
                                    Step::Fail(p) => Step::Fail(p),
                                }
                            }
                        } else {
                            Step::Miss(c as usize)
                        }
                    },
                },
            }
        }
    } else {
        Step::Miss(i as usize)
    }
}

/// The committed closing brace of the named-argument object.
pub open spec fn spec_named_close(s: Seq<u8>, p: nat, pr: (PredV, Option<Box<ExprV>>)) -> Step<
    (PredV, Option<Box<ExprV>>),
> {
    let q = spec_ws(s, p);
    if q < s.len() && s[q as int] == 125 {
        Step::Hit(spec_ws(s, (q + 1) as nat) as usize, pr)
    } else {
        Step::Fail(q as usize)
    }
}

/// The `"object"` named argument: a key and an uncommitted expression.
pub open spec fn spec_pair_object(s: Seq<u8>, i: nat) -> Step<ExprV>
    decreases s.len() - i, 5int,
{
    match spec_operator_name(s, i, spec_object_key()) {
        Step::Miss(p) => Step::Miss(p),
        Step::Fail(p) => Step::Fail(p),
        Step::Hit(k, _) => {
            let q = spec_ws(s, k as nat);
            if !(i < q <= s.len()) {
                Step::Fail(q as usize)
            } else {
                match spec_expression(s, q) {
                    Step::Hit(n, e) => Step::Hit(spec_ws(s, n as nat) as usize, e),
                    Step::Miss(p) => Step::Miss(p),
                    Step::Fail(p) => Step::Fail(p),
                }
            }
        },
    }
}


/// An expression (see `spec_expression`).
#[verifier::rlimit(60)]
pub fn expression(s: &[u8], i: usize) -> (r: Step<Expression>)
    requires
        i <= s@.len(),
    ensures
        step_view(r, |e: Expression| view_expr(e)) == spec_expression(s@, i as nat),
        r matches Step::Hit(n, _) ==> i <= n <= s@.len(),
    decreases s@.len() - i, 9int,
{
    match variable_expr(s, i) {
        Step::Hit(n, p) => {
            return Step::Hit(n, Expression::Variable(ExprVariable { var_path: p }));
        },
        Step::Fail(p) => {
            return Step::Fail(p);
        },
        Step::Miss(_) => {},
    }
    match field_path_expr(s, i) {
        Step::Hit(n, p) => {
            return Step::Hit(n, Expression::FieldPath(ExprFieldPath { field_path: p }));
        },
        Step::Fail(p) => {
            return Step::Fail(p);
        },
        Step::Miss(_) => {},
    }
    match operator_expr(s, i) {
        Step::Hit(n, op) => {
            return Step::Hit(n, Expression::Operator(Box::new(op)));
        },
        Step::Fail(p) => {
            return Step::Fail(p);
        },
        Step::Miss(_) => {},
    }
    match literal_expr(s, i) {
        Step::Hit(n, l) => Step::Hit(n, Expression::Literal(l)),
        Step::Fail(p) => Step::Fail(p),
        Step::Miss(p) => Step::Miss(p),
    }
}

/// A literal expression (see `spec_literal_expr`).
#[verifier::rlimit(60)]
pub fn literal_expr(s: &[u8], i: usize) -> (r: Step<ExprLiteral>)
    requires
        i <= s@.len(),
    ensures
        step_view(r, |l: ExprLiteral| view_literal(l)) == spec_literal_expr(s@, i as nat),
        r matches Step::Hit(n, _) ==> i <= n <= s@.len(),
    decreases s@.len() - i, 8int,
{
    match null(s, i) {
        Step::Hit(n, _) => {
            return Step::Hit(n, ExprLiteral::Null(NullLiteral));
        },
        Step::Fail(p) => {
            return Step::Fail(p);
        },
        Step::Miss(_) => {},
    }
    let j = skip_ws(s, i);
    match number(s, j) {
        Step::Hit(n, v) => {
            return Step::Hit(
                skip_ws(s, n),
                ExprLiteral::Number(NumberLiteral { value: v }),
            );
        },
        Step::Fail(p) => {
            return Step::Fail(p);
        },
        Step::Miss(_) => {},
    }
    match boolean(s, i) {
        Step::Hit(n, b) => {
            return Step::Hit(n, ExprLiteral::Bool(BoolLiteral { value: b }));
        },
        Step::Fail(p) => {
            return Step::Fail(p);
        },
        Step::Miss(_) => {},
    }
    match string(s, j) {
        Step::Hit(n, v) => {
            return Step::Hit(
                skip_ws(s, n),
                ExprLiteral::String(StringLiteral { value: v }),
            );
        },
        Step::Fail(p) => {
            return Step::Fail(p);
        },
        Step::Miss(_) => {},
    }
    match expr_array(s, j) {
        Step::Hit(n, es) => {
            return Step::Hit(
                skip_ws(s, n),
                ExprLiteral::Array(ArrayLiteral { value: es }),
            );
        },
        Step::Fail(p) => {
            return Step::Fail(p);
        },
        Step::Miss(_) => {},
    }
    match expr_object(s, j) {
        Step::Hit(n, ps) => Step::Hit(
            skip_ws(s, n),
            ExprLiteral::Object(ObjectLiteral { value: ps }),
        ),
        Step::Fail(p) => Step::Fail(p),
        Step::Miss(p) => Step::Miss(p),
    }
}

/// A bracketed expression list (see `spec_expr_array`).
#[verifier::rlimit(100)]
#[verifier::spinoff_prover]
fn expr_array(s: &[u8], i: usize) -> (r: Step<Vec<Expression>>)
    requires
        i <= s@.len(),
    ensures
        step_view(r, |v: Vec<Expression>| view_exprs(v@)) == spec_expr_array(s@, i as nat),
        r matches Step::Hit(n, _) ==> i <= n <= s@.len(),
    decreases s@.len() - i, 7int,
{
    let j = skip_ws(s, i);
    if j < s.len() && s[j] == 91 {
        let q0 = skip_ws(s, j + 1);
        let mut out: Vec<Expression> = Vec::new();
        match expression(s, q0) {
            Step::Fail(p) => Step::Fail(p),
            Step::Miss(_) => {
                proof {
                    assert(view_exprs(out@) =~= Seq::<ExprV>::empty());
                }
                close_exprs(s, q0, out)
            },
            Step::Hit(k0, e0) => {
                let k = skip_ws(s, k0);
                if !(q0 < k && k <= s.len()) {
                    return Step::Fail(k);
                }
                out.push(e0);
                proof {
                    assert(out@.drop_last() =~= Seq::<Expression>::empty());
                    assert(view_exprs(out@) =~= seq![view_expr(e0)]);
                }
                exprs_tail(s, k, out)
            },
        }
    } else {
        Step::Miss(i)
    }
}

/// The rest of an expression list (see `spec_exprs_tail`).
#[verifier::rlimit(100)]
#[verifier::spinoff_prover]
fn exprs_tail(s: &[u8], p: usize, es: Vec<Expression>) -> (r: Step<Vec<Expression>>)
    requires
        p <= s@.len(),
    ensures
        step_view(r, |v: Vec<Expression>| view_exprs(v@)) == spec_exprs_tail(
            s@,
            p as nat,
            view_exprs(es@),
        ),
        r matches Step::Hit(n, _) ==> p <= n <= s@.len(),
    decreases s@.len() - p, 8int,
{
    let c = skip_ws(s, p);
    if c < s.len() && s[c] == 44 {
        let q = skip_ws(s, c + 1);
        match expression(s, q) {
            Step::Fail(pp) => Step::Fail(pp),
            Step::Miss(_) => close_exprs(s, p, es),
            Step::Hit(k1, e) => {
                let k = skip_ws(s, k1);
                let mut es = es;
                let ghost prev = view_exprs(es@);
                es.push(e);
                proof {
                    assert(view_exprs(es@) =~= prev.push(view_expr(e)));
                }
                exprs_tail(s, k, es)
            },
        }
    } else {
        close_exprs(s, p, es)
    }
}

fn close_exprs(s: &[u8], p: usize, es: Vec<Expression>) -> (r: Step<Vec<Expression>>)
    requires
        p <= s@.len(),
    ensures
        step_view(r, |v: Vec<Expression>| view_exprs(v@)) == spec_close_exprs(
            s@,
            p as nat,
            view_exprs(es@),
        ),
        r matches Step::Hit(n, _) ==> p <= n <= s@.len(),
{
    let q = skip_ws(s, p);
    if q < s.len() && s[q] == 93 {
        Step::Hit(skip_ws(s, q + 1), es)
    } else {
        Step::Fail(q)
    }
}

fn find_expr_key(p: &Vec<(Vec<u8>, Expression)>, key: &[u8], i: usize) -> (r: Option<usize>)
    requires
        i <= p@.len(),
    ensures
        match r {
            Some(j) => Some(j as int) == spec_find_kv(view_expr_ent(p@), key@, i as nat) && j
                < p@.len(),
            None => spec_find_kv(view_expr_ent(p@), key@, i as nat) is None,
        },
    decreases p@.len() - i,
{
    if i >= p.len() {
        None
    } else if crate::bytes::bytes_eq(p[i].0.as_slice(), key) {
        Some(i)
    } else {
        find_expr_key(p, key, i + 1)
    }
}

/// Inserts a parsed object-literal entry, replacing the value of an
/// existing key in place.
fn insert_expr_entry(out: &mut Vec<(Vec<u8>, Expression)>, key: Vec<u8>, e: Expression)
    ensures
        view_expr_ent(final(out)@) == spec_set_kv(view_expr_ent(old(out)@), key@, view_expr(e)),
{
    let ghost old_view = view_expr_ent(out@);
    match find_expr_key(out, key.as_slice(), 0) {
        Some(i) => {
            out.set(i, (key, e));
            proof {
                assert(view_expr_ent(out@) =~= old_view.update(i as int, (key@, view_expr(e))));
            }
        },
        None => {
            out.push((key, e));
            proof {
                assert(out@.drop_last() =~= old(out)@);
                assert(view_expr_ent(out@) =~= old_view.push((key@, view_expr(e))));
            }
        },
    }
}

/// An object of expressions (see `spec_expr_object`).
#[verifier::rlimit(100)]
#[verifier::spinoff_prover]
fn expr_object(s: &[u8], i: usize) -> (r: Step<Vec<(Vec<u8>, Expression)>>)
    requires
        i <= s@.len(),
    ensures
        step_view(r, |v: Vec<(Vec<u8>, Expression)>| view_expr_ent(v@)) == spec_expr_object(
            s@,
            i as nat,
        ),
        r matches Step::Hit(n, _) ==> i <= n <= s@.len(),
    decreases s@.len() - i, 7int,
{
    let j = skip_ws(s, i);
    if j < s.len() && s[j] == 123 {
        let q0 = skip_ws(s, j + 1);
        let mut out: Vec<(Vec<u8>, Expression)> = Vec::new();
        match expr_entry(s, q0) {
            Step::Fail(p) => Step::Fail(p),
            Step::Miss(_) => {
                proof {
                    assert(view_expr_ent(out@) =~= Seq::<(Seq<u8>, ExprV)>::empty());
                }
                close_expr_obj(s, q0, out)
            },
            Step::Hit(k, kv) => {
                if !(q0 < k && k <= s.len()) {
                    return Step::Fail(k);
                }
                proof {
                    assert(view_expr_ent(out@) =~= Seq::<(Seq<u8>, ExprV)>::empty());
                }
                insert_expr_entry(&mut out, kv.0, kv.1);
                expr_entries_tail(s, k, out)
            },
        }
    } else {
        Step::Miss(i)
    }
}

/// The rest of an object literal's entries (see `spec_expr_entries_tail`).
#[verifier::rlimit(100)]
#[verifier::spinoff_prover]
fn expr_entries_tail(s: &[u8], p: usize, ents: Vec<(Vec<u8>, Expression)>) -> (r: Step<
    Vec<(Vec<u8>, Expression)>,
>)
    requires
        p <= s@.len(),
    ensures
        step_view(r, |v: Vec<(Vec<u8>, Expression)>| view_expr_ent(v@))
            == spec_expr_entries_tail(s@, p as nat, view_expr_ent(ents@)),
        r matches Step::Hit(n, _) ==> p <= n <= s@.len(),
    decreases s@.len() - p, 8int,
{
    let c = skip_ws(s, p);
    if c < s.len() && s[c] == 44 {
        let q = skip_ws(s, c + 1);
        match expr_entry(s, q) {
            Step::Fail(pp) => Step::Fail(pp),
            Step::Miss(_) => close_expr_obj(s, p, ents),
            Step::Hit(k, kv) => {
                let mut ents = ents;
                insert_expr_entry(&mut ents, kv.0, kv.1);
                expr_entries_tail(s, k, ents)
            },
        }
    } else {
        close_expr_obj(s, p, ents)
    }
}

fn close_expr_obj(s: &[u8], p: usize, ents: Vec<(Vec<u8>, Expression)>) -> (r: Step<
    Vec<(Vec<u8>, Expression)>,
>)
    requires
        p <= s@.len(),
    ensures
        step_view(r, |v: Vec<(Vec<u8>, Expression)>| view_expr_ent(v@)) == spec_close_expr_obj(
            s@,
            p as nat,
            view_expr_ent(ents@),
        ),
        r matches Step::Hit(n, _) ==> p <= n <= s@.len(),
{
    let q = skip_ws(s, p);
    if q < s.len() && s[q] == 125 {
        Step::Hit(skip_ws(s, q + 1), ents)
    } else {
        Step::Fail(q)
    }
}

/// One `"key": expression` entry (see `spec_expr_entry`).
#[verifier::rlimit(60)]
fn expr_entry(s: &[u8], p: usize) -> (r: Step<(Vec<u8>, Expression)>)
    requires
        p <= s@.len(),
    ensures
        step_view(r, |kv: (Vec<u8>, Expression)| (kv.0@, view_expr(kv.1))) == spec_expr_entry(
            s@,
            p as nat,
        ),
        r matches Step::Hit(n, _) ==> p < n <= s@.len(),
    decreases s@.len() - p, 6int,
{
    let q = skip_ws(s, p);
    match string(s, q) {
        Step::Fail(pp) => Step::Fail(pp),
        Step::Miss(pp) => Step::Miss(pp),
        Step::Hit(k0, key) => {
            let k = skip_ws(s, k0);
            if k < s.len() && s[k] == 58 {
                let v0 = skip_ws(s, k + 1);
                match expression(s, v0) {
                    Step::Fail(pp) => Step::Fail(pp),
                    Step::Miss(pp) => Step::Miss(pp),
                    Step::Hit(n, e) => Step::Hit(skip_ws(s, n), (key, e)),
                }
            } else {
                Step::Miss(k)
            }
        },
    }
}

/// An operator call (see `spec_operator_expr`).
#[verifier::rlimit(100)]
#[verifier::spinoff_prover]
pub fn operator_expr(s: &[u8], i: usize) -> (r: Step<ExprOperator>)
    requires
        i <= s@.len(),
    ensures
        step_view(r, |op: ExprOperator| view_expr_op(op)) == spec_operator_expr(s@, i as nat),
        r matches Step::Hit(n, _) ==> i <= n <= s@.len(),
    decreases s@.len() - i, 8int,
{
    let j = skip_ws(s, i);
    if j < s.len() && s[j] == 123 {
        let p0 = skip_ws(s, j + 1);
        match escaped_string(s, p0) {
            Step::Miss(_) => {
                return Step::Miss(i);
            },
            Step::Fail(p) => {
                return Step::Fail(p);
            },
            Step::Hit(_, span) => {
                if !(span.0 < span.1 && s[span.0] == 36) {
                    return Step::Miss(i);
                }
            },
        }
        match gt_operator_expr(s, p0) {
            Step::Hit(n, g) => {
                return op_close(s, n, ExprOperator::Gt(g));
            },
            Step::Fail(p) => {
                return Step::Fail(p);
            },
            Step::Miss(_) => {},
        }
        match lt_operator_expr(s, p0) {
            Step::Hit(n, l) => {
                return op_close(s, n, ExprOperator::Lt(l));
            },
            Step::Fail(p) => {
                return Step::Fail(p);
            },
            Step::Miss(_) => {},
        }
        match eq_operator_expr(s, p0) {
            Step::Hit(n, q) => {
                return op_close(s, n, ExprOperator::Eq(q));
            },
            Step::Fail(p) => {
                return Step::Fail(p);
            },
            Step::Miss(_) => {},
        }
        match match_operator_expr(s, p0) {
            Step::Hit(n, m) => op_close(s, n, ExprOperator::Match(m)),
            Step::Fail(p) => Step::Fail(p),
            Step::Miss(_) => Step::Fail(p0),
        }
    } else {
        Step::Miss(i)
    }
}

fn op_close(s: &[u8], p: usize, op: ExprOperator) -> (r: Step<ExprOperator>)
    requires
        p <= s@.len(),
    ensures
        step_view(r, |o: ExprOperator| view_expr_op(o)) == spec_op_close(
            s@,
            p as nat,
            view_expr_op(op),
        ),
        r matches Step::Hit(n, _) ==> p <= n <= s@.len(),
{
    let q = skip_ws(s, p);
    if q < s.len() && s[q] == 125 {
        Step::Hit(skip_ws(s, q + 1), op)
    } else {
        Step::Miss(q)
    }
}

/// A committed two-expression argument list after a named operator.
#[verifier::rlimit(100)]
#[verifier::spinoff_prover]
fn binary_args(s: &[u8], i: usize, name: &[u8]) -> (r: Step<(Expression, Expression)>)
    requires
        i <= s@.len(),
    ensures
        step_view(r, |pr: (Expression, Expression)| (view_expr(pr.0), view_expr(pr.1)))
            == spec_binary_args(s@, i as nat, name@),
        r matches Step::Hit(n, _) ==> i <= n <= s@.len(),
    decreases s@.len() - i, 7int,
{
    match operator_name(s, i, name) {
        Step::Miss(p) => Step::Miss(p),
        Step::Fail(p) => Step::Fail(p),
        Step::Hit(k, _) => {
            let w1 = skip_ws(s, k);
            if w1 < s.len() && s[w1] == 91 {
                let w2 = skip_ws(s, w1 + 1);
                match expression(s, w2) {
                    Step::Hit(n1, e1) => {
                        let c = skip_ws(s, n1);
                        if c < s.len() && s[c] == 44 {
                            let w3 = skip_ws(s, c + 1);
                            match expression(s, w3) {
                                Step::Hit(n2, e2) => {
                                    let cb = skip_ws(s, n2);
                                    if cb < s.len() && s[cb] == 93 {
                                        Step::Hit(skip_ws(s, skip_ws(s, cb + 1)), (e1, e2))
                                    } else {
                                        Step::Fail(cb)
                                    }
                                },
                                _ => Step::Fail(w3),
                            }
                        } else {
                            Step::Fail(c)
                        }
                    },
                    _ => Step::Fail(w2),
                }
            } else {
                Step::Fail(w1)
            }
        },
    }
}

/// `$gt` in expression position: two committed arguments.
pub fn gt_operator_expr(s: &[u8], i: usize) -> (r: Step<GtOperator>)
    requires
        i <= s@.len(),
    ensures
        step_view(r, |g: GtOperator| view_expr_op(ExprOperator::Gt(g))) == (
        match spec_binary_args(s@, i as nat, spec_gt_name()) {
            Step::Hit(n, pr) => Step::Hit(n, ExprV::GtOp(Box::new(pr.0), Box::new(pr.1))),
            Step::Miss(p) => Step::Miss(p),
            Step::Fail(p) => Step::Fail(p),
        }),
        r matches Step::Hit(n, _) ==> i <= n <= s@.len(),
    decreases s@.len() - i, 8int,
{
    let name: [u8; 3] = [36, 103, 116];
    proof {
        assert(name@ =~= spec_gt_name());
    }
    match binary_args(s, i, name.as_slice()) {
        Step::Hit(n, pr) => Step::Hit(n, GtOperator { arg1: pr.0, arg2: pr.1 }),
        Step::Miss(p) => Step::Miss(p),
        Step::Fail(p) => Step::Fail(p),
    }
}

/// `$lt` in expression position: two committed arguments.
pub fn lt_operator_expr(s: &[u8], i: usize) -> (r: Step<LtOperator>)
    requires
        i <= s@.len(),
    ensures
        step_view(r, |l: LtOperator| view_expr_op(ExprOperator::Lt(l))) == (
        match spec_binary_args(s@, i as nat, spec_lt_name()) {
            Step::Hit(n, pr) => Step::Hit(n, ExprV::LtOp(Box::new(pr.0), Box::new(pr.1))),
            Step::Miss(p) => Step::Miss(p),
            Step::Fail(p) => Step::Fail(p),
        }),
        r matches Step::Hit(n, _) ==> i <= n <= s@.len(),
    decreases s@.len() - i, 8int,
{
    let name: [u8; 3] = [36, 108, 116];
    proof {
        assert(name@ =~= spec_lt_name());
    }
    match binary_args(s, i, name.as_slice()) {
        Step::Hit(n, pr) => Step::Hit(n, LtOperator { arg1: pr.0, arg2: pr.1 }),
        Step::Miss(p) => Step::Miss(p),
        Step::Fail(p) => Step::Fail(p),
    }
}

/// `$eq` in expression position: two committed arguments.
pub fn eq_operator_expr(s: &[u8], i: usize) -> (r: Step<EqOperator>)
    requires
        i <= s@.len(),
    ensures
        step_view(r, |q: EqOperator| view_expr_op(ExprOperator::Eq(q))) == (
        match spec_binary_args(s@, i as nat, spec_eq_name()) {
            Step::Hit(n, pr) => Step::Hit(n, ExprV::EqOp(Box::new(pr.0), Box::new(pr.1))),
            Step::Miss(p) => Step::Miss(p),
            Step::Fail(p) => Step::Fail(p),
        }),
        r matches Step::Hit(n, _) ==> i <= n <= s@.len(),
    decreases s@.len() - i, 8int,
{
    let name: [u8; 3] = [36, 101, 113];
    proof {
        assert(name@ =~= spec_eq_name());
    }
    match binary_args(s, i, name.as_slice()) {
        Step::Hit(n, pr) => Step::Hit(n, EqOperator { arg1: pr.0, arg2: pr.1 }),
        Step::Miss(p) => Step::Miss(p),
        Step::Fail(p) => Step::Fail(p),
    }
}

/// `$match` in expression position (see `spec_match_operator_expr`).
#[verifier::rlimit(100)]
#[verifier::spinoff_prover]
pub fn match_operator_expr(s: &[u8], i: usize) -> (r: Step<MatchOperator>)
    requires
        i <= s@.len(),
    ensures
        step_view(r, |m: MatchOperator| view_expr_op(ExprOperator::Match(m)))
            == spec_match_operator_expr(s@, i as nat),
        r matches Step::Hit(n, _) ==> i <= n <= s@.len(),
    decreases s@.len() - i, 7int,
{
    let name: [u8; 6] = [36, 109, 97, 116, 99, 104];
    proof {
        assert(name@ =~= spec_match_name());
    }
    match operator_name(s, i, name.as_slice()) {
        Step::Miss(p) => Step::Miss(p),
        Step::Fail(p) => Step::Fail(p),
        Step::Hit(k, _) => {
            let q = skip_ws(s, k);
            match match_named(s, q) {
                Step::Hit(n, pr) => Step::Hit(
                    skip_ws(s, n),
                    MatchOperator { predicate: pr.0, object: pr.1 },
                ),
                Step::Fail(p) => Step::Fail(p),
                Step::Miss(_) => match predicate(s, q) {
                    Step::Hit(n, pr) => Step::Hit(
                        skip_ws(s, n),
                        MatchOperator { predicate: pr, object: None },
                    ),
                    _ => Step::Fail(q),
                },
            }
        },
    }
}

/// The named arguments of `$match` (see `spec_match_named`).
#[verifier::rlimit(100)]
#[verifier::spinoff_prover]
fn match_named(s: &[u8], i: usize) -> (r: Step<(Predicate, Option<Expression>)>)
    requires
        i <= s@.len(),
    ensures
        step_view(r, |pr: (Predicate, Option<Expression>)| view_match_pair(pr))
            == spec_match_named(s@, i as nat),
        r matches Step::Hit(n, _) ==> i <= n <= s@.len(),
    decreases s@.len() - i, 6int,
{
    let j = skip_ws(s, i);
    if j < s.len() && s[j] == 123 {
        let p0 = skip_ws(s, j + 1);
        match pair_predicate(s, p0) {
            Step::Fail(p) => Step::Fail(p),
            Step::Hit(k1, pr) => {
                let c = skip_ws(s, k1);
                if c < s.len() && s[c] == 44 {
                    let q2 = skip_ws(s, c + 1);
                    match pair_object(s, q2) {
                        Step::Hit(k2, ob) => named_close(s, k2, (pr, Some(ob))),
                        Step::Miss(p) => Step::Miss(p),
                        Step::Fail(p) => Step::Fail(p),
                    }
                } else {
                    Step::Miss(c)
                }
            },
            Step::Miss(_) => match pair_object(s, p0) {
                Step::Fail(p) => Step::Fail(p),
                Step::Miss(p) => Step::Miss(p),
                Step::Hit(k1, ob) => {
                    let c = skip_ws(s, k1);
                    if c < s.len() && s[c] == 44 {
                        let q2 = skip_ws(s, c + 1);
                        match pair_predicate(s, q2) {
                            Step::Hit(k2, pr) => named_close(s, k2, (pr, Some(ob))),
                            Step::Miss(p) => Step::Miss(p),
                            Step::Fail(p) => Step::Fail(p),
                        }
                    } else {
                        Step::Miss(c)
                    }
                },
            },
        }
    } else {
        Step::Miss(i)
    }
}

fn named_close(s: &[u8], p: usize, pr: (Predicate, Option<Expression>)) -> (r: Step<
    (Predicate, Option<Expression>),
>)
    requires
        p <= s@.len(),
    ensures
        step_view(r, |pr2: (Predicate, Option<Expression>)| view_match_pair(pr2))
            == spec_named_close(s@, p as nat, view_match_pair(pr)),
        r matches Step::Hit(n, _) ==> p <= n <= s@.len(),
{
    let q = skip_ws(s, p);
    if q < s.len() && s[q] == 125 {
        Step::Hit(skip_ws(s, q + 1), pr)
    } else {
        Step::Fail(q)
    }
}

/// The `"object"` named argument (see `spec_pair_object`).
#[verifier::rlimit(60)]
fn pair_object(s: &[u8], i: usize) -> (r: Step<Expression>)
    requires
        i <= s@.len(),
    ensures
        step_view(r, |e: Expression| view_expr(e)) == spec_pair_object(s@, i as nat),
        r matches Step::Hit(n, _) ==> i < n <= s@.len(),
    decreases s@.len() - i, 5int,
{
    let key: [u8; 6] = [111, 98, 106, 101, 99, 116];
    proof {
        assert(key@ =~= spec_object_key());
    }
    match operator_name(s, i, key.as_slice()) {
        Step::Miss(p) => Step::Miss(p),
        Step::Fail(p) => Step::Fail(p),
        Step::Hit(k, _) => {
            let q = skip_ws(s, k);
            match expression(s, q) {
                Step::Hit(n, e) => Step::Hit(skip_ws(s, n), e),
                Step::Miss(p) => Step::Miss(p),
                Step::Fail(p) => Step::Fail(p),
            }
        },
    }
}


/// The named arguments of `$match` accept the predicate-first order: with
/// the braces open, where the `predicate` pair, a comma and the `object`
/// pair parse in sequence, the permutation succeeds with that predicate and
/// that object, closed by the committed brace.
pub proof fn lemma_match_named_predicate_first(
    s: Seq<u8>,
    i: nat,
    k1: usize,
    pr: PredV,
    k2: usize,
    ob: ExprV,
)
    requires
        spec_ws(s, i) < s.len(),
        s[spec_ws(s, i) as int] == 123,
        i < spec_ws(s, (spec_ws(s, i) + 1) as nat) <= s.len(),
        spec_pair_predicate(s, spec_ws(s, (spec_ws(s, i) + 1) as nat)) == Step::<PredV>::Hit(
            k1,
            pr,
        ),
        spec_ws(s, k1 as nat) < s.len(),
        s[spec_ws(s, k1 as nat) as int] == 44,
        i < spec_ws(s, (spec_ws(s, k1 as nat) + 1) as nat) <= s.len(),
        spec_pair_object(s, spec_ws(s, (spec_ws(s, k1 as nat) + 1) as nat)) == Step::<
            ExprV,
        >::Hit(k2, ob),
    ensures
        spec_match_named(s, i) == spec_named_close(s, k2 as nat, (pr, Some(Box::new(ob)))),
{
}

/// The named arguments of `$match` equally accept the object-first order:
/// where the `predicate` pair misses at the first slot but the `object`
/// pair, a comma and the `predicate` pair parse in sequence, the permutation
/// succeeds with the same predicate and object as the other order.
pub proof fn lemma_match_named_object_first(
    s: Seq<u8>,
    i: nat,
    k1: usize,
    ob: ExprV,
    k2: usize,
    pr: PredV,
)
    requires
        spec_ws(s, i) < s.len(),
        s[spec_ws(s, i) as int] == 123,
        i < spec_ws(s, (spec_ws(s, i) + 1) as nat) <= s.len(),
        spec_pair_predicate(s, spec_ws(s, (spec_ws(s, i) + 1) as nat)) is Miss,
        spec_pair_object(s, spec_ws(s, (spec_ws(s, i) + 1) as nat)) == Step::<ExprV>::Hit(
            k1,
            ob,
        ),
        spec_ws(s, k1 as nat) < s.len(),
        s[spec_ws(s, k1 as nat) as int] == 44,
        i < spec_ws(s, (spec_ws(s, k1 as nat) + 1) as nat) <= s.len(),
        spec_pair_predicate(s, spec_ws(s, (spec_ws(s, k1 as nat) + 1) as nat)) == Step::<
            PredV,
        >::Hit(k2, pr),
    ensures
        spec_match_named(s, i) == spec_named_close(s, k2 as nat, (pr, Some(Box::new(ob)))),
{
}

/// The permutation rejects an input that holds neither named argument at the
/// first slot: a missing key is a miss, never a partial parse.
pub proof fn lemma_match_named_rejects_missing(s: Seq<u8>, i: nat)
    requires
        spec_ws(s, i) < s.len(),
        s[spec_ws(s, i) as int] == 123,
        i < spec_ws(s, (spec_ws(s, i) + 1) as nat) <= s.len(),
        spec_pair_predicate(s, spec_ws(s, (spec_ws(s, i) + 1) as nat)) is Miss,
        spec_pair_object(s, spec_ws(s, (spec_ws(s, i) + 1) as nat)) is Miss,
    ensures
        spec_match_named(s, i) is Miss,
{
}

/// The permutation rejects a duplicated key: after the `predicate` pair and
/// a comma, only the `object` pair may follow; a second `predicate` key
/// makes the remaining slot miss and the permutation with it.
pub proof fn lemma_match_named_rejects_duplicate(s: Seq<u8>, i: nat, k1: usize, pr: PredV)
    requires
        spec_ws(s, i) < s.len(),
        s[spec_ws(s, i) as int] == 123,
        i < spec_ws(s, (spec_ws(s, i) + 1) as nat) <= s.len(),
        spec_pair_predicate(s, spec_ws(s, (spec_ws(s, i) + 1) as nat)) == Step::<PredV>::Hit(
            k1,
            pr,
        ),
        spec_ws(s, k1 as nat) < s.len(),
        s[spec_ws(s, k1 as nat) as int] == 44,
        i < spec_ws(s, (spec_ws(s, k1 as nat) + 1) as nat) <= s.len(),
        spec_pair_object(s, spec_ws(s, (spec_ws(s, k1 as nat) + 1) as nat)) is Miss,
    ensures
        spec_match_named(s, i) is Miss,
{
}

} // verus!
