//! The grammar of the surface syntax, predicate side: JSON-compatible
//! literals with escaped strings and surrogate pairs, field paths, and the
//! predicate operators. The surface text is UTF-8, handled as bytes; every
//! parser is pinned to a specification function over the byte sequence, so
//! that parsing is a mathematical function of the input.
//!
//! A parser consumes from a position and reports one of three outcomes:
//! success with the next position, a recoverable miss (another alternative
//! may apply), or a committed failure that aborts the whole parse. A parser
//! commits once the construct is recognizable, as the grammar prescribes.

use vstd::prelude::*;
use crate::ast::{
    ArrayIndex, InnerField, MemberAccess, Operator, Predicate, Value, Variable, VariablePath,
};
use crate::ast_views::{
    lemma_view_value_ent_index, lemma_view_value_ent_len, lemma_view_values_index,
    lemma_view_values_len, view_path, view_step, view_value, view_value_ent, view_values, OpV,
    PathV, PredV, StepV, ValueV,
};
use crate::bytes::copy_bytes;
use crate::dynamic::Number;
use crate::float_bits::{decimal_to_bits, spec_decimal_to_bits};

verus! {

broadcast use
    vstd::slice::axiom_spec_len,
    lemma_view_values_len,
    lemma_view_values_index,
    lemma_view_value_ent_len,
    lemma_view_value_ent_index,
    crate::ast_views::lemma_view_ops_len,
    crate::ast_views::lemma_view_ops_index,
    crate::ast_views::lemma_view_preds_len,
    crate::ast_views::lemma_view_preds_index,
;

/// A position-tagged grammar failure.
#[derive(Debug, PartialEq, Eq, Structural, Clone, Copy)]
pub struct ParseError {
    pub pos: usize,
}

/// The outcome of one parser: success with the position after the consumed
/// text, a recoverable miss, or a committed failure.
pub enum Step<T> {
    Hit(usize, T),
    Miss(usize),
    Fail(usize),
}

/// A parsed payload mapped to its view, positions kept.
pub open spec fn step_view<T, U>(r: Step<T>, f: spec_fn(T) -> U) -> Step<U> {
    match r {
        Step::Hit(n, v) => Step::Hit(n, f(v)),
        Step::Miss(p) => Step::Miss(p),
        Step::Fail(p) => Step::Fail(p),
    }
}

/// Whether `b` is one of the four whitespace bytes the grammar skips.
pub open spec fn spec_is_ws(b: u8) -> bool {
    b == 32 || b == 9 || b == 13 || b == 10
}

/// The first position at or after `i` that holds no whitespace.
pub open spec fn spec_ws(s: Seq<u8>, i: nat) -> nat
    decreases s.len() - i,
{
    if i < s.len() && spec_is_ws(s[i as int]) {
        spec_ws(s, (i + 1) as nat)
    } else {
        i
    }
}

/// Skips whitespace.
pub fn skip_ws(s: &[u8], i: usize) -> (r: usize)
    requires
        i <= s@.len(),
    ensures
        r as nat == spec_ws(s@, i as nat),
        i <= r <= s@.len(),
    decreases s@.len() - i,
{
    if i < s.len() && (s[i] == 32 || s[i] == 9 || s[i] == 13 || s[i] == 10) {
        skip_ws(s, i + 1)
    } else {
        i
    }
}

/// Whether the text at `i` begins with `t`.
pub open spec fn spec_tag_at(s: Seq<u8>, i: nat, t: Seq<u8>) -> bool {
    i + t.len() <= s.len() && s.subrange(i as int, (i + t.len()) as int) == t
}

/// Matches the literal bytes `t`.
pub fn tag_at(s: &[u8], i: usize, t: &[u8]) -> (r: bool)
    requires
        i <= s@.len(),
    ensures
        r == spec_tag_at(s@, i as nat, t@),
{
    if s.len() - i < t.len() {
        proof {
            assert(!spec_tag_at(s@, i as nat, t@));
        }
        return false;
    }
    let mut k: usize = 0;
    while k < t.len()
        invariant
            i + t@.len() <= s@.len(),
            k <= t@.len(),
            forall|j: int| 0 <= j < k ==> s@[i + j] == t@[j],
        decreases t@.len() - k,
    {
        proof {
            vstd::slice::axiom_spec_len(s);
        }
        if s[i + k] != t[k] {
            proof {
                assert(s@.subrange(i as int, i + t@.len()) != t@) by {
                    assert(s@.subrange(i as int, i + t@.len())[k as int] != t@[k as int]);
                }
            }
            return false;
        }
        k = k + 1;
    }
    proof {
        assert(s@.subrange(i as int, i + t@.len()) =~= t@);
    }
    true
}

/// The bytes of the keyword `null`.
pub open spec fn spec_null_name() -> Seq<u8> {
    seq![110u8, 117u8, 108u8, 108u8]
}

/// The bytes of the keyword `true`.
pub open spec fn spec_true_name() -> Seq<u8> {
    seq![116u8, 114u8, 117u8, 101u8]
}

/// The bytes of the keyword `false`.
pub open spec fn spec_false_name() -> Seq<u8> {
    seq![102u8, 97u8, 108u8, 115u8, 101u8]
}

/// The `null` keyword, whitespace allowed on both sides.
pub open spec fn spec_null(s: Seq<u8>, i: nat) -> Step<()> {
    let j = spec_ws(s, i);
    if spec_tag_at(s, j, spec_null_name()) {
        Step::Hit(spec_ws(s, (j + 4) as nat) as usize, ())
    } else {
        Step::Miss(i as usize)
    }
}

pub fn null(s: &[u8], i: usize) -> (r: Step<()>)
    requires
        i <= s@.len(),
    ensures
        r == spec_null(s@, i as nat),
        r matches Step::Hit(n, _) ==> i <= n <= s@.len(),
{
    proof {
        vstd::slice::axiom_spec_len(s);
    }
    let j = skip_ws(s, i);
    let name: [u8; 4] = [110, 117, 108, 108];
    proof {
        assert(name@ =~= spec_null_name());
    }
    if tag_at(s, j, name.as_slice()) {
        Step::Hit(skip_ws(s, j + 4), ())
    } else {
        Step::Miss(i)
    }
}

/// A boolean keyword, whitespace allowed on both sides; `false` is tried
/// first, then `true`.
pub open spec fn spec_boolean(s: Seq<u8>, i: nat) -> Step<bool> {
    let j = spec_ws(s, i);
    if spec_tag_at(s, j, spec_false_name()) {
        Step::Hit(spec_ws(s, (j + 5) as nat) as usize, false)
    } else if spec_tag_at(s, j, spec_true_name()) {
        Step::Hit(spec_ws(s, (j + 4) as nat) as usize, true)
    } else {
        Step::Miss(i as usize)
    }
}

pub fn boolean(s: &[u8], i: usize) -> (r: Step<bool>)
    requires
        i <= s@.len(),
    ensures
        r == spec_boolean(s@, i as nat),
        r matches Step::Hit(n, _) ==> i <= n <= s@.len(),
{
    proof {
        vstd::slice::axiom_spec_len(s);
    }
    let j = skip_ws(s, i);
    let f_name: [u8; 5] = [102, 97, 108, 115, 101];
    let t_name: [u8; 4] = [116, 114, 117, 101];
    proof {
        assert(f_name@ =~= spec_false_name());
        assert(t_name@ =~= spec_true_name());
    }
    if tag_at(s, j, f_name.as_slice()) {
        Step::Hit(skip_ws(s, j + 5), false)
    } else if tag_at(s, j, t_name.as_slice()) {
        Step::Hit(skip_ws(s, j + 4), true)
    } else {
        Step::Miss(i)
    }
}

/// Whether `b` is a decimal digit.
pub open spec fn spec_is_digit(b: u8) -> bool {
    48 <= b <= 57
}

/// The first position at or after `i` that holds no decimal digit.
pub open spec fn spec_digits_end(s: Seq<u8>, i: nat) -> nat
    decreases s.len() - i,
{
    if i < s.len() && spec_is_digit(s[i as int]) {
        spec_digits_end(s, (i + 1) as nat)
    } else {
        i
    }
}

pub proof fn lemma_digits_range(s: Seq<u8>, j: nat)
    ensures
        forall|k: int| j <= k < spec_digits_end(s, j) ==> spec_is_digit(s[k]),
    decreases s.len() - j,
{
    if j < s.len() && spec_is_digit(s[j as int]) {
        lemma_digits_range(s, (j + 1) as nat);
    }
}

pub fn digits_end(s: &[u8], i: usize) -> (r: usize)
    requires
        i <= s@.len(),
    ensures
        r as nat == spec_digits_end(s@, i as nat),
        i <= r <= s@.len(),
    decreases s@.len() - i,
{
    if i < s.len() && 48 <= s[i] && s[i] <= 57 {
        digits_end(s, i + 1)
    } else {
        i
    }
}


/// Digit accumulation with a saturation guard: once the accumulator reaches
/// the threshold, further digits are read but no longer change it; `used`
/// counts the digits that did.
pub open spec fn spec_mant(s: Seq<u8>, j: nat, end: nat, acc: int, used: int) -> (int, int)
    decreases end - j,
{
    if j >= end || j >= s.len() {
        (acc, used)
    } else if acc >= 1800000000000000000 {
        spec_mant(s, (j + 1) as nat, end, acc, used)
    } else {
        spec_mant(s, (j + 1) as nat, end, acc * 10 + (s[j as int] - 48), used + 1)
    }
}

fn mant(s: &[u8], j: usize, end: usize, acc0: u64, used0: usize) -> (r: (u64, usize))
    requires
        j <= end <= s@.len(),
        used0 <= usize::MAX - (end - j),
        forall|k: int| j <= k < end ==> spec_is_digit(s@[k]),
    ensures
        (r.0 as int, r.1 as int) == spec_mant(s@, j as nat, end as nat, acc0 as int, used0 as int),
        used0 <= r.1 <= used0 + (end - j),
    decreases end - j,
{
    if j >= end {
        (acc0, used0)
    } else if acc0 >= 1800000000000000000 {
        mant(s, j + 1, end, acc0, used0)
    } else {
        mant(s, j + 1, end, acc0 * 10 + ((s[j] - 48) as u64), used0 + 1)
    }
}

/// Exponent-digit accumulation, saturating at one hundred thousand.
pub open spec fn spec_expmag(s: Seq<u8>, j: nat, end: nat, acc: int) -> int
    decreases end - j,
{
    if j >= end || j >= s.len() {
        acc
    } else if acc >= 100000 {
        spec_expmag(s, (j + 1) as nat, end, acc)
    } else {
        spec_expmag(s, (j + 1) as nat, end, acc * 10 + (s[j as int] - 48))
    }
}

fn expmag(s: &[u8], j: usize, end: usize, acc0: u64) -> (r: u64)
    requires
        j <= end <= s@.len(),
        forall|k: int| j <= k < end ==> spec_is_digit(s@[k]),
    ensures
        r as int == spec_expmag(s@, j as nat, end as nat, acc0 as int),
        acc0 < 1000010 ==> r < 1000010,
    decreases end - j,
{
    if j >= end {
        acc0
    } else if acc0 >= 100000 {
        expmag(s, j + 1, end, acc0)
    } else {
        expmag(s, j + 1, end, acc0 * 10 + ((s[j] - 48) as u64))
    }
}

/// A count clamped to two thousand, so that exponent arithmetic stays small.
pub open spec fn spec_clamp2000(x: int) -> int {
    if x > 2000 {
        2000
    } else {
        x
    }
}

fn clamp2000(x: usize) -> (r: usize)
    ensures
        r as int == spec_clamp2000(x as int),
        r <= 2000,
{
    if x > 2000 {
        2000
    } else {
        x
    }
}

/// A number literal: an optional minus, digits, and an optional fraction
/// and exponent. Without fraction and exponent, a value in the signed
/// 64-bit range is an integer; everything else is a double, scaled from the
/// read digits as `float_bits` prescribes.
pub open spec fn spec_number(s: Seq<u8>, i: nat) -> Step<Number> {
    let neg = i < s.len() && s[i as int] == 45;
    let j: nat = if neg {
        (i + 1) as nat
    } else {
        i
    };
    let d1 = spec_digits_end(s, j);
    if d1 == j {
        Step::Miss(i as usize)
    } else {
        let (ival, iused) = spec_mant(s, j, d1, 0, 0);
        let int_exact = iused == d1 - j;
        let int_ok = int_exact && (if neg {
            ival <= 0x8000_0000_0000_0000
        } else {
            ival <= 0x7fff_ffff_ffff_ffff
        });
        let followed = d1 < s.len() && (s[d1 as int] == 46 || s[d1 as int] == 101 || s[d1 as int]
            == 69);
        if int_ok && !followed {
            if neg {
                Step::Hit(d1 as usize, Number::Int((0 - ival) as i64))
            } else {
                Step::Hit(d1 as usize, Number::Int(ival as i64))
            }
        } else {
            spec_number_float(s, i, neg, j, d1)
        }
    }
}

/// The double-precision reading of a number literal whose digits start at
/// `j` and whose integer part ends at `d1`.
pub open spec fn spec_number_float(s: Seq<u8>, i: nat, neg: bool, j: nat, d1: nat) -> Step<
    Number,
> {
    let has_frac = d1 < s.len() && s[d1 as int] == 46;
    let fstart: nat = if has_frac {
        (d1 + 1) as nat
    } else {
        d1
    };
    let d2 = spec_digits_end(s, fstart);
    if has_frac && d2 == fstart {
        Step::Miss(i as usize)
    } else {
        let (a1, u1) = spec_mant(s, j, d1, 0, 0);
        let (a2, u2) = spec_mant(s, fstart, d2, a1, u1);
        let dropped = spec_clamp2000(d1 - j - u1);
        let fused = spec_clamp2000(u2 - u1);
        let has_exp = d2 < s.len() && (s[d2 as int] == 101 || s[d2 as int] == 69);
        if has_exp {
            let k: nat = (d2 + 1) as nat;
            let esigned = k < s.len() && (s[k as int] == 43 || s[k as int] == 45);
            let eneg = k < s.len() && s[k as int] == 45;
            let k2: nat = if esigned {
                (k + 1) as nat
            } else {
                k
            };
            let d3 = spec_digits_end(s, k2);
            if d3 == k2 {
                Step::Miss(i as usize)
            } else {
                let emag = spec_expmag(s, k2, d3, 0);
                let e10: int = if eneg {
                    dropped - fused - emag
                } else {
                    dropped - fused + emag
                };
                Step::Hit(
                    d3 as usize,
                    Number::Float(spec_decimal_to_bits(neg, a2 as u64, e10)),
                )
            }
        } else {
            Step::Hit(
                d2 as usize,
                Number::Float(spec_decimal_to_bits(neg, a2 as u64, dropped - fused)),
            )
        }
    }
}

pub fn number(s: &[u8], i: usize) -> (r: Step<Number>)
    requires
        i <= s@.len(),
    ensures
        r == spec_number(s@, i as nat),
        r matches Step::Hit(n, _) ==> i <= n <= s@.len(),
{
    proof {
        vstd::slice::axiom_spec_len(s);
    }
    let neg = i < s.len() && s[i] == 45;
    let j: usize = if neg {
        i + 1
    } else {
        i
    };
    let d1 = digits_end(s, j);
    proof {
        lemma_digits_range(s@, j as nat);
    }
    if d1 == j {
        return Step::Miss(i);
    }
    let (ival, iused) = mant(s, j, d1, 0, 0);
    let int_exact = iused == d1 - j;
    let int_ok = int_exact && (if neg {
        ival <= 0x8000_0000_0000_0000
    } else {
        ival <= 0x7fff_ffff_ffff_ffff
    });
    let followed = d1 < s.len() && (s[d1] == 46 || s[d1] == 101 || s[d1] == 69);
    if int_ok && !followed {
        if neg {
            let v: i64 = if ival == 0x8000_0000_0000_0000 {
                -0x7fff_ffff_ffff_ffff - 1
            } else {
                -(ival as i64)
            };
            return Step::Hit(d1, Number::Int(v));
        } else {
            return Step::Hit(d1, Number::Int(ival as i64));
        }
    }
    number_float(s, i, neg, j, d1)
}

fn number_float(s: &[u8], i: usize, neg: bool, j: usize, d1: usize) -> (r: Step<Number>)
    requires
        i <= j <= d1 <= s@.len(),
        d1 as nat == spec_digits_end(s@, j as nat),
    ensures
        r == spec_number_float(s@, i as nat, neg, j as nat, d1 as nat),
        r matches Step::Hit(n, _) ==> i <= n <= s@.len(),
{
    proof {
        vstd::slice::axiom_spec_len(s);
    }
    let has_frac = d1 < s.len() && s[d1] == 46;
    let fstart: usize = if has_frac {
        d1 + 1
    } else {
        d1
    };
    let d2 = digits_end(s, fstart);
    proof {
        lemma_digits_range(s@, j as nat);
        lemma_digits_range(s@, fstart as nat);
    }
    if has_frac && d2 == fstart {
        return Step::Miss(i);
    }
    let (a1, u1) = mant(s, j, d1, 0, 0);
    let (a2, u2) = mant(s, fstart, d2, a1, u1);
    let dropped = clamp2000(d1 - j - u1);
    let fused = clamp2000(u2 - u1);
    let has_exp = d2 < s.len() && (s[d2] == 101 || s[d2] == 69);
    if has_exp {
        let k: usize = d2 + 1;
        let esigned = k < s.len() && (s[k] == 43 || s[k] == 45);
        let eneg = k < s.len() && s[k] == 45;
        let k2: usize = if esigned {
            k + 1
        } else {
            k
        };
        let d3 = digits_end(s, k2);
        proof {
            lemma_digits_range(s@, k2 as nat);
        }
        if d3 == k2 {
            return Step::Miss(i);
        }
        let emag = expmag(s, k2, d3, 0);
        let e10: i64 = if eneg {
            (dropped as i64) - (fused as i64) - (emag as i64)
        } else {
            (dropped as i64) - (fused as i64) + (emag as i64)
        };
        Step::Hit(d3, Number::Float(decimal_to_bits(neg, a2, e10)))
    } else {
        let e10: i64 = (dropped as i64) - (fused as i64);
        Step::Hit(d2, Number::Float(decimal_to_bits(neg, a2, e10)))
    }
}


/// Whether `b` may follow a backslash as a one-character escape.
pub open spec fn spec_is_escape_char(b: u8) -> bool {
    b == 34 || b == 92 || b == 47 || b == 98 || b == 102 || b == 110 || b == 114 || b == 116
}

/// Whether `b` is a hexadecimal digit.
pub open spec fn spec_is_hex(b: u8) -> bool {
    (48 <= b <= 57) || (97 <= b <= 102) || (65 <= b <= 70)
}

fn is_hex(b: u8) -> (r: bool)
    ensures
        r == spec_is_hex(b),
{
    (48 <= b && b <= 57) || (97 <= b && b <= 102) || (65 <= b && b <= 70)
}

/// The value of a hexadecimal digit.
pub open spec fn spec_hex_val(b: u8) -> int {
    if 48 <= b <= 57 {
        b - 48
    } else if 97 <= b <= 102 {
        b - 87
    } else if 65 <= b <= 70 {
        b - 55
    } else {
        0
    }
}

fn hex_val(b: u8) -> (r: u8)
    ensures
        r as int == spec_hex_val(b),
        r < 16,
{
    if 48 <= b && b <= 57 {
        b - 48
    } else if 97 <= b && b <= 102 {
        b - 87
    } else if 65 <= b && b <= 70 {
        b - 55
    } else {
        0
    }
}

/// The value of the four hexadecimal digits at `j`.
pub open spec fn spec_hex4(s: Seq<u8>, j: int) -> int {
    ((spec_hex_val(s[j]) * 16 + spec_hex_val(s[j as int + 1])) * 16 + spec_hex_val(s[j as int + 2])) * 16
        + spec_hex_val(s[j as int + 3])
}

fn hex4(s: &[u8], j: usize) -> (r: u32)
    requires
        j + 4 <= s@.len(),
    ensures
        r as int == spec_hex4(s@, j as int),
        r < 0x10000,
{
    proof {
        vstd::slice::axiom_spec_len(s);
    }
    let a = hex_val(s[j]) as u32;
    let b = hex_val(s[j + 1]) as u32;
    let c = hex_val(s[j + 2]) as u32;
    let d = hex_val(s[j + 3]) as u32;
    ((a * 16 + b) * 16 + c) * 16 + d
}

/// The end of the raw content of a string token whose opening quote stands
/// just before `j`: validates escapes and reports the position of the
/// closing quote's content end. A malformed escape or a missing closing
/// quote is a committed failure.
pub open spec fn spec_str_span(s: Seq<u8>, j: nat) -> Step<usize>
    decreases s.len() - j,
{
    if j >= s.len() {
        Step::Fail(j as usize)
    } else if s[j as int] == 34 {
        Step::Hit((j + 1) as usize, j as usize)
    } else if s[j as int] == 92 {
        if j + 1 < s.len() && spec_is_escape_char(s[j as int + 1]) {
            spec_str_span(s, (j + 2) as nat)
        } else if j + 1 < s.len() && s[j as int + 1] == 117 && j + 6 <= s.len() && spec_is_hex(s[j as int + 2])
            && spec_is_hex(s[j as int + 3]) && spec_is_hex(s[j as int + 4]) && spec_is_hex(s[j as int + 5]) {
            spec_str_span(s, (j + 6) as nat)
        } else {
            Step::Fail((j + 1) as usize)
        }
    } else {
        spec_str_span(s, (j + 1) as nat)
    }
}

/// A string token: the quotes and the raw span between them.
pub open spec fn spec_escaped_string(s: Seq<u8>, i: nat) -> Step<(usize, usize)> {
    if i < s.len() && s[i as int] == 34 {
        match spec_str_span(s, (i + 1) as nat) {
            Step::Hit(n, hi) => Step::Hit(n, ((i + 1) as usize, hi)),
            Step::Miss(p) => Step::Miss(p),
            Step::Fail(p) => Step::Fail(p),
        }
    } else {
        Step::Miss(i as usize)
    }
}

pub fn escaped_string(s: &[u8], i: usize) -> (r: Step<(usize, usize)>)
    requires
        i <= s@.len(),
    ensures
        r == spec_escaped_string(s@, i as nat),
        r matches Step::Hit(n, span) ==> i < span.0 <= span.1 < n && n <= s@.len(),
{
    proof {
        vstd::slice::axiom_spec_len(s);
    }
    if i < s.len() && s[i] == 34 {
        let mut j: usize = i + 1;
        loop
            invariant
                i < s@.len(),
                s@[i as int] == 34,
                i + 1 <= j <= s@.len(),
                spec_str_span(s@, (i + 1) as nat) == spec_str_span(s@, j as nat),
            decreases s@.len() - j,
        {
            proof {
                vstd::slice::axiom_spec_len(s);
            }
            if j >= s.len() {
                return Step::Fail(j);
            } else if s[j] == 34 {
                return Step::Hit(j + 1, (i + 1, j));
            } else if s[j] == 92 {
                if s.len() - j > 1 && (s[j + 1] == 34 || s[j + 1] == 92 || s[j + 1] == 47 || s[j
                    + 1] == 98 || s[j + 1] == 102 || s[j + 1] == 110 || s[j + 1] == 114 || s[j
                    + 1] == 116) {
                    j = j + 2;
                } else if s.len() - j > 1 && s[j + 1] == 117 && s.len() - j >= 6 && is_hex(
                    s[j + 2],
                ) && is_hex(s[j + 3]) && is_hex(s[j + 4]) && is_hex(s[j + 5]) {
                    j = j + 6;
                } else {
                    return Step::Fail(j + 1);
                }
            } else {
                j = j + 1;
            }
        }
    } else {
        Step::Miss(i)
    }
}

/// The UTF-8 encoding of the code point `cp`.
pub open spec fn spec_utf8(cp: int) -> Seq<u8> {
    if cp < 0x80 {
        seq![cp as u8]
    } else if cp < 0x800 {
        seq![(192 + cp / 64) as u8, (128 + cp % 64) as u8]
    } else if cp < 0x10000 {
        seq![(224 + cp / 4096) as u8, (128 + (cp / 64) % 64) as u8, (128 + cp % 64) as u8]
    } else {
        seq![
            (240 + cp / 262144) as u8,
            (128 + (cp / 4096) % 64) as u8,
            (128 + (cp / 64) % 64) as u8,
            (128 + cp % 64) as u8,
        ]
    }
}

fn utf8_bytes(cp: u32) -> (r: Vec<u8>)
    requires
        cp < 0x110000,
    ensures
        r@ == spec_utf8(cp as int),
{
    let mut r: Vec<u8> = Vec::new();
    if cp < 0x80 {
        r.push(cp as u8);
    } else if cp < 0x800 {
        r.push((192 + cp / 64) as u8);
        r.push((128 + cp % 64) as u8);
    } else if cp < 0x10000 {
        r.push((224 + cp / 4096) as u8);
        r.push((128 + (cp / 64) % 64) as u8);
        r.push((128 + cp % 64) as u8);
    } else {
        r.push((240 + cp / 262144) as u8);
        r.push((128 + (cp / 4096) % 64) as u8);
        r.push((128 + (cp / 64) % 64) as u8);
        r.push((128 + cp % 64) as u8);
    }
    proof {
        assert(r@ =~= spec_utf8(cp as int));
    }
    r
}

/// Unescaping of a validated raw span: plain bytes pass through, escapes
/// become their characters, and a `\u` escape in the high-surrogate range
/// pairs with a following low surrogate to form one code point. A lone or
/// mismatched surrogate is a recoverable miss.
pub open spec fn spec_unescape(s: Seq<u8>, j: nat, hi: nat, acc: Seq<u8>) -> Step<Seq<u8>>
    decreases hi - j,
{
    if j >= hi {
        Step::Hit(j as usize, acc)
    } else if s[j as int] == 92 {
        if j + 1 >= hi {
            Step::Miss(j as usize)
        } else {
            let c = s[j as int + 1];
            if c == 110 {
                spec_unescape(s, (j + 2) as nat, hi, acc.push(10))
            } else if c == 114 {
                spec_unescape(s, (j + 2) as nat, hi, acc.push(13))
            } else if c == 116 {
                spec_unescape(s, (j + 2) as nat, hi, acc.push(9))
            } else if c == 98 {
                spec_unescape(s, (j + 2) as nat, hi, acc.push(8))
            } else if c == 102 {
                spec_unescape(s, (j + 2) as nat, hi, acc.push(12))
            } else if c == 92 {
                spec_unescape(s, (j + 2) as nat, hi, acc.push(92))
            } else if c == 34 {
                spec_unescape(s, (j + 2) as nat, hi, acc.push(34))
            } else if c == 47 {
                spec_unescape(s, (j + 2) as nat, hi, acc.push(47))
            } else if c == 117 {
                if j + 6 > hi {
                    Step::Miss(j as usize)
                } else {
                    let v = spec_hex4(s, j as int + 2);
                    if 0xd800 <= v < 0xdc00 {
                        if j + 12 <= hi && s[j as int + 6] == 92 && s[j as int + 7] == 117 {
                            let w = spec_hex4(s, j as int + 8);
                            if 0xdc00 <= w < 0xe000 {
                                spec_unescape(
                                    s,
                                    (j + 12) as nat,
                                    hi,
                                    acc + spec_utf8(0x10000 + (v - 0xd800) * 0x400 + (w - 0xdc00)),
                                )
                            } else {
                                Step::Miss(j as usize)
                            }
                        } else {
                            Step::Miss(j as usize)
                        }
                    } else if 0xdc00 <= v < 0xe000 {
                        Step::Miss(j as usize)
                    } else {
                        spec_unescape(s, (j + 6) as nat, hi, acc + spec_utf8(v))
                    }
                }
            } else {
                Step::Miss(j as usize)
            }
        }
    } else {
        spec_unescape(s, (j + 1) as nat, hi, acc.push(s[j as int]))
    }
}

pub fn unescape_span(s: &[u8], lo: usize, hi: usize) -> (r: Step<Vec<u8>>)
    requires
        lo <= hi <= s@.len(),
    ensures
        step_view(r, |v: Vec<u8>| v@) == spec_unescape(s@, lo as nat, hi as nat, Seq::empty()),
{
    proof {
        vstd::slice::axiom_spec_len(s);
    }
    let mut out: Vec<u8> = Vec::new();
    let mut j: usize = lo;
    loop
        invariant
            lo <= j <= hi <= s@.len(),
            spec_unescape(s@, lo as nat, hi as nat, Seq::empty()) == spec_unescape(
                s@,
                j as nat,
                hi as nat,
                out@,
            ),
        decreases hi - j,
    {
        proof {
            vstd::slice::axiom_spec_len(s);
        }
        if j >= hi {
            return Step::Hit(j, out);
        } else if s[j] == 92 {
            if hi - j < 2 {
                return Step::Miss(j);
            }
            let c = s[j + 1];
            if c == 110 {
                out.push(10);
                j = j + 2;
            } else if c == 114 {
                out.push(13);
                j = j + 2;
            } else if c == 116 {
                out.push(9);
                j = j + 2;
            } else if c == 98 {
                out.push(8);
                j = j + 2;
            } else if c == 102 {
                out.push(12);
                j = j + 2;
            } else if c == 92 {
                out.push(92);
                j = j + 2;
            } else if c == 34 {
                out.push(34);
                j = j + 2;
            } else if c == 47 {
                out.push(47);
                j = j + 2;
            } else if c == 117 {
                if hi - j < 6 {
                    return Step::Miss(j);
                }
                let v = hex4(s, j + 2);
                if 0xd800 <= v && v < 0xdc00 {
                    if hi - j >= 12 && s[j + 6] == 92 && s[j + 7] == 117 {
                        let w = hex4(s, j + 8);
                        if 0xdc00 <= w && w < 0xe000 {
                            let cp: u32 = 0x10000 + (v - 0xd800) * 0x400 + (w - 0xdc00);
                            let mut bytes = utf8_bytes(cp);
                            let ghost prev = out@;
                            out.append(&mut bytes);
                            proof {
                                assert(out@ =~= prev + spec_utf8(cp as int));
                            }
                            j = j + 12;
                        } else {
                            return Step::Miss(j);
                        }
                    } else {
                        return Step::Miss(j);
                    }
                } else if 0xdc00 <= v && v < 0xe000 {
                    return Step::Miss(j);
                } else {
                    let mut bytes = utf8_bytes(v);
                    let ghost prev = out@;
                    out.append(&mut bytes);
                    proof {
                        assert(out@ =~= prev + spec_utf8(v as int));
                    }
                    j = j + 6;
                }
            } else {
                return Step::Miss(j);
            }
        } else {
            out.push(s[j]);
            j = j + 1;
        }
    }
}

/// A string literal: a quoted token, unescaped to its bytes.
pub open spec fn spec_string(s: Seq<u8>, i: nat) -> Step<Seq<u8>> {
    match spec_escaped_string(s, i) {
        Step::Hit(n, span) => match spec_unescape(s, span.0 as nat, span.1 as nat, Seq::empty()) {
            Step::Hit(_, out) => Step::Hit(n, out),
            Step::Miss(p) => Step::Miss(p),
            Step::Fail(p) => Step::Fail(p),
        },
        Step::Miss(p) => Step::Miss(p),
        Step::Fail(p) => Step::Fail(p),
    }
}

pub fn string(s: &[u8], i: usize) -> (r: Step<Vec<u8>>)
    requires
        i <= s@.len(),
    ensures
        step_view(r, |v: Vec<u8>| v@) == spec_string(s@, i as nat),
        r matches Step::Hit(n, _) ==> i <= n <= s@.len(),
{
    match escaped_string(s, i) {
        Step::Hit(n, span) => match unescape_span(s, span.0, span.1) {
            Step::Hit(_, out) => Step::Hit(n, out),
            Step::Miss(p) => Step::Miss(p),
            Step::Fail(p) => Step::Fail(p),
        },
        Step::Miss(p) => Step::Miss(p),
        Step::Fail(p) => Step::Fail(p),
    }
}


/// A copy of the bytes in `[lo, hi)`.
pub fn copy_range(s: &[u8], lo: usize, hi: usize) -> (r: Vec<u8>)
    requires
        lo <= hi <= s@.len(),
    ensures
        r@ == s@.subrange(lo as int, hi as int),
{
    proof {
        vstd::slice::axiom_spec_len(s);
    }
    let mut r: Vec<u8> = Vec::new();
    let mut j: usize = lo;
    while j < hi
        invariant
            lo <= j <= hi <= s@.len(),
            r@ =~= s@.subrange(lo as int, j as int),
        decreases hi - j,
    {
        r.push(s[j]);
        proof {
            assert(r@ =~= s@.subrange(lo as int, j + 1 as int));
        }
        j = j + 1;
    }
    r
}

/// Whitespace skipping bounded by `hi`.
pub open spec fn spec_ws_to(s: Seq<u8>, j: nat, hi: nat) -> nat
    decreases hi - j,
{
    if j < hi && j < s.len() && spec_is_ws(s[j as int]) {
        spec_ws_to(s, (j + 1) as nat, hi)
    } else {
        j
    }
}

pub fn skip_ws_to(s: &[u8], j: usize, hi: usize) -> (r: usize)
    requires
        j <= hi <= s@.len(),
    ensures
        r as nat == spec_ws_to(s@, j as nat, hi as nat),
        j <= r <= hi,
    decreases hi - j,
{
    if j < hi && (s[j] == 32 || s[j] == 9 || s[j] == 13 || s[j] == 10) {
        skip_ws_to(s, j + 1, hi)
    } else {
        j
    }
}

/// Digit run bounded by `hi`.
pub open spec fn spec_digits_end_to(s: Seq<u8>, j: nat, hi: nat) -> nat
    decreases hi - j,
{
    if j < hi && j < s.len() && spec_is_digit(s[j as int]) {
        spec_digits_end_to(s, (j + 1) as nat, hi)
    } else {
        j
    }
}

pub fn digits_end_to(s: &[u8], j: usize, hi: usize) -> (r: usize)
    requires
        j <= hi <= s@.len(),
    ensures
        r as nat == spec_digits_end_to(s@, j as nat, hi as nat),
        j <= r <= hi,
    decreases hi - j,
{
    if j < hi && 48 <= s[j] && s[j] <= 57 {
        digits_end_to(s, j + 1, hi)
    } else {
        j
    }
}

/// The end of a path segment: bytes other than `.`, `[` and `]`, bounded by
/// `hi`.
pub open spec fn spec_seg_end(s: Seq<u8>, j: nat, hi: nat) -> nat
    decreases hi - j,
{
    if j < hi && j < s.len() && s[j as int] != 46 && s[j as int] != 91 && s[j as int] != 93 {
        spec_seg_end(s, (j + 1) as nat, hi)
    } else {
        j
    }
}

pub fn seg_end(s: &[u8], j: usize, hi: usize) -> (r: usize)
    requires
        j <= hi <= s@.len(),
    ensures
        r as nat == spec_seg_end(s@, j as nat, hi as nat),
        j <= r <= hi,
    decreases hi - j,
{
    if j < hi && s[j] != 46 && s[j] != 91 && s[j] != 93 {
        seg_end(s, j + 1, hi)
    } else {
        j
    }
}

/// An unsigned index: digits accumulated while they fit the pointer width.
pub open spec fn spec_index_val(s: Seq<u8>, j: nat, end: nat, acc: int) -> Option<int>
    decreases end - j,
{
    if j >= end || j >= s.len() {
        Some(acc)
    } else {
        let v = acc * 16 - acc * 6 + (s[j as int] - 48);
        if v > usize::MAX as int {
            None
        } else {
            spec_index_val(s, (j + 1) as nat, end, v)
        }
    }
}

fn index_val(s: &[u8], j: usize, end: usize, acc0: usize) -> (r: Option<usize>)
    requires
        j <= end <= s@.len(),
        forall|k: int| j <= k < end ==> spec_is_digit(s@[k]),
    ensures
        match r {
            Some(v) => Some(v as int) == spec_index_val(s@, j as nat, end as nat, acc0 as int),
            None => spec_index_val(s@, j as nat, end as nat, acc0 as int) is None,
        },
    decreases end - j,
{
    if j >= end {
        Some(acc0)
    } else {
        let d = (s[j] - 48) as usize;
        if acc0 > (usize::MAX - d) / 10 {
            proof {
                assert(acc0 * 16 - acc0 * 6 == acc0 * 10) by (nonlinear_arith);
                assert(acc0 * 10 + d > usize::MAX) by {
                    assert(acc0 >= (usize::MAX - d) / 10 + 1);
                    assert(acc0 * 10 >= ((usize::MAX - d) / 10 + 1) * 10) by (nonlinear_arith)
                        requires acc0 >= (usize::MAX - d) / 10 + 1;
                    assert(((usize::MAX - d) / 10) * 10 + 10 > usize::MAX - d);
                }
            }
            None
        } else {
            proof {
                assert(acc0 * 16 - acc0 * 6 == acc0 * 10) by (nonlinear_arith);
                assert(acc0 * 10 + d <= usize::MAX) by {
                    assert(acc0 <= (usize::MAX - d) / 10);
                    assert(acc0 * 10 <= ((usize::MAX - d) / 10) * 10) by (nonlinear_arith)
                        requires acc0 <= (usize::MAX - d) / 10;
                    assert(((usize::MAX - d) / 10) * 10 <= usize::MAX - d);
                }
            }
            index_val(s, j + 1, end, acc0 * 10 + d)
        }
    }
}


pub proof fn lemma_ws_to_mono(s: Seq<u8>, j: nat, hi: nat)
    ensures
        j <= spec_ws_to(s, j, hi),
        j < hi ==> spec_ws_to(s, j, hi) <= hi,
    decreases hi - j,
{
    if j < hi && j < s.len() && spec_is_ws(s[j as int]) {
        lemma_ws_to_mono(s, (j + 1) as nat, hi);
    }
}

pub proof fn lemma_digits_end_to_mono(s: Seq<u8>, j: nat, hi: nat)
    ensures
        j <= spec_digits_end_to(s, j, hi),
        j < hi ==> spec_digits_end_to(s, j, hi) <= hi,
    decreases hi - j,
{
    if j < hi && j < s.len() && spec_is_digit(s[j as int]) {
        lemma_digits_end_to_mono(s, (j + 1) as nat, hi);
    }
}

pub proof fn lemma_seg_end_mono(s: Seq<u8>, j: nat, hi: nat)
    ensures
        j <= spec_seg_end(s, j, hi),
        j < hi ==> spec_seg_end(s, j, hi) <= hi,
    decreases hi - j,
{
    if j < hi && j < s.len() && s[j as int] != 46 && s[j as int] != 91 && s[j as int] != 93 {
        lemma_seg_end_mono(s, (j + 1) as nat, hi);
    }
}

/// The steps of a path after its base, accumulated onto `acc`: `.name`
/// descends into a member, `[index]` into an array element. Inside the
/// token, anything else is a committed failure.
pub open spec fn spec_path_steps(s: Seq<u8>, j: nat, hi: nat, acc: PathV) -> Step<PathV>
    decreases hi - j,
    via spec_path_steps_dec
{
    if j >= hi || j >= s.len() {
        Step::Hit(j as usize, acc)
    } else if s[j as int] == 46 {
        let k = spec_seg_end(s, (j + 1) as nat, hi);
        if k == j + 1 {
            Step::Fail((j + 1) as usize)
        } else {
            spec_path_steps(
                s,
                k,
                hi,
                PathV {
                    base: acc.base,
                    steps: acc.steps.push(StepV::Member(s.subrange(j as int + 1, k as int))),
                },
            )
        }
    } else if s[j as int] == 91 {
        let p = spec_ws_to(s, (j + 1) as nat, hi);
        let d = spec_digits_end_to(s, p, hi);
        if d == p {
            Step::Fail(p as usize)
        } else {
            match spec_index_val(s, p, d, 0) {
                None => Step::Fail(p as usize),
                Some(idx) => {
                    let q = spec_ws_to(s, d, hi);
                    if q < hi && q < s.len() && s[q as int] == 93 {
                        spec_path_steps(
                            s,
                            (q + 1) as nat,
                            hi,
                            PathV {
                                base: acc.base,
                                steps: acc.steps.push(StepV::Index(idx as usize)),
                            },
                        )
                    } else {
                        Step::Fail(q as usize)
                    }
                },
            }
        }
    } else {
        Step::Fail(j as usize)
    }
}

#[via_fn]
proof fn spec_path_steps_dec(s: Seq<u8>, j: nat, hi: nat, acc: PathV) {
    if j < hi && j < s.len() {
        lemma_seg_end_mono(s, (j + 1) as nat, hi);
        let p = spec_ws_to(s, (j + 1) as nat, hi);
        lemma_ws_to_mono(s, (j + 1) as nat, hi);
        lemma_digits_end_to_mono(s, p, hi);
        let d = spec_digits_end_to(s, p, hi);
        lemma_ws_to_mono(s, d, hi);
    }
}

/// A path inside a raw string token spanning `[j, hi)`: a nonempty base
/// segment followed by member and index steps up to the end of the token.
pub open spec fn spec_field_path(s: Seq<u8>, j: nat, hi: nat) -> Step<PathV> {
    let k = spec_seg_end(s, j, hi);
    if k == j {
        Step::Miss(j as usize)
    } else {
        spec_path_steps(
            s,
            k,
            hi,
            PathV { base: s.subrange(j as int, k as int), steps: Seq::empty() },
        )
    }
}

pub fn field_path(s: &[u8], j: usize, hi: usize) -> (r: Step<VariablePath>)
    requires
        j <= hi <= s@.len(),
    ensures
        step_view(r, |p: VariablePath| view_path(p)) == spec_field_path(s@, j as nat, hi as nat),
        r matches Step::Hit(n, _) ==> j <= n <= hi,
{
    proof {
        vstd::slice::axiom_spec_len(s);
    }
    let k = seg_end(s, j, hi);
    if k == j {
        return Step::Miss(j);
    }
    let base = Variable { field: copy_range(s, j, k) };
    let mut cur = VariablePath::BaseVariable(base);
    let mut pos: usize = k;
    proof {
        assert(view_path(cur).steps =~= Seq::<StepV>::empty());
    }
    loop
        invariant
            j <= pos <= hi <= s@.len(),
            spec_field_path(s@, j as nat, hi as nat) == spec_path_steps(
                s@,
                pos as nat,
                hi as nat,
                view_path(cur),
            ),
        decreases hi - pos,
    {
        proof {
            vstd::slice::axiom_spec_len(s);
        }
        if pos >= hi {
            return Step::Hit(pos, cur);
        } else if s[pos] == 46 {
            let k2 = seg_end(s, pos + 1, hi);
            if k2 == pos + 1 {
                return Step::Fail(pos + 1);
            }
            let member = MemberAccess { member: copy_range(s, pos + 1, k2) };
            cur = VariablePath::InnerField {
                base: Box::new(cur),
                field: InnerField::MemberAccess(member),
            };
            pos = k2;
        } else if s[pos] == 91 {
            let p = skip_ws_to(s, pos + 1, hi);
            let d = digits_end_to(s, p, hi);
            if d == p {
                return Step::Fail(p);
            }
            proof {
                lemma_digits_range_to(s@, p as nat, hi as nat);
            }
            let idx = match index_val(s, p, d, 0) {
                Some(v) => v,
                None => {
                    return Step::Fail(p);
                },
            };
            let q = skip_ws_to(s, d, hi);
            if q < hi && s[q] == 93 {
                cur = VariablePath::InnerField {
                    base: Box::new(cur),
                    field: InnerField::ArrayIndex(ArrayIndex { index: idx }),
                };
                pos = q + 1;
            } else {
                return Step::Fail(q);
            }
        } else {
            return Step::Fail(pos);
        }
    }
}

pub proof fn lemma_digits_range_to(s: Seq<u8>, j: nat, hi: nat)
    ensures
        forall|k: int| j <= k < spec_digits_end_to(s, j, hi) ==> spec_is_digit(s[k]),
    decreases hi - j,
{
    if j < hi && j < s.len() && spec_is_digit(s[j as int]) {
        lemma_digits_range_to(s, (j + 1) as nat, hi);
    }
}

/// A field-constraint key: a quoted token that does not begin with `$`,
/// holding a path that spans the whole token.
pub open spec fn spec_field(s: Seq<u8>, i: nat) -> Step<PathV> {
    match spec_escaped_string(s, i) {
        Step::Hit(n, span) => {
            if (span.0 as nat) < (span.1 as nat) && s[span.0 as int] == 36 {
                Step::Miss(i as usize)
            } else {
                match spec_field_path(s, span.0 as nat, span.1 as nat) {
                    Step::Hit(_, p) => Step::Hit(n, p),
                    Step::Miss(p) => Step::Miss(p),
                    Step::Fail(p) => Step::Fail(p),
                }
            }
        },
        Step::Miss(p) => Step::Miss(p),
        Step::Fail(p) => Step::Fail(p),
    }
}

pub fn field(s: &[u8], i: usize) -> (r: Step<crate::ast::Field>)
    requires
        i <= s@.len(),
    ensures
        step_view(r, |f: crate::ast::Field| crate::ast_views::view_field(f)) == spec_field(
            s@,
            i as nat,
        ),
        r matches Step::Hit(n, _) ==> i <= n <= s@.len(),
{
    proof {
        vstd::slice::axiom_spec_len(s);
    }
    match escaped_string(s, i) {
        Step::Hit(n, span) => {
            if span.0 < span.1 && s[span.0] == 36 {
                return Step::Miss(i);
            }
            match field_path(s, span.0, span.1) {
                Step::Hit(_, p) => Step::Hit(n, crate::ast::Field(p)),
                Step::Miss(p) => Step::Miss(p),
                Step::Fail(p) => Step::Fail(p),
            }
        },
        Step::Miss(p) => Step::Miss(p),
        Step::Fail(p) => Step::Fail(p),
    }
}


/// The first entry of `s` from position `i` on whose key is `key`.
pub open spec fn spec_find_kv<T>(s: Seq<(Seq<u8>, T)>, key: Seq<u8>, i: nat) -> Option<int>
    decreases s.len() - i,
{
    if i >= s.len() {
        None
    } else if s[i as int].0 == key {
        Some(i as int)
    } else {
        spec_find_kv(s, key, (i + 1) as nat)
    }
}

/// Key insertion as an ordered map does it: an existing key keeps its
/// position and takes the new value, a new key goes to the end.
pub open spec fn spec_set_kv<T>(s: Seq<(Seq<u8>, T)>, key: Seq<u8>, v: T) -> Seq<(Seq<u8>, T)> {
    match spec_find_kv(s, key, 0nat) {
        Some(i) => s.update(i, (key, v)),
        None => s.push((key, v)),
    }
}

fn find_value_key(p: &Vec<(Vec<u8>, Value)>, key: &[u8], i: usize) -> (r: Option<usize>)
    requires
        i <= p@.len(),
    ensures
        match r {
            Some(j) => Some(j as int) == spec_find_kv(view_value_ent(p@), key@, i as nat) && j
                < p@.len(),
            None => spec_find_kv(view_value_ent(p@), key@, i as nat) is None,
        },
    decreases p@.len() - i,
{
    if i >= p.len() {
        None
    } else if crate::bytes::bytes_eq(p[i].0.as_slice(), key) {
        Some(i)
    } else {
        find_value_key(p, key, i + 1)
    }
}

/// Inserts a parsed object entry, replacing the value of an existing key in
/// place.
fn insert_value_entry(out: &mut Vec<(Vec<u8>, Value)>, key: Vec<u8>, v: Value)
    ensures
        view_value_ent(final(out)@) == spec_set_kv(
            view_value_ent(old(out)@),
            key@,
            view_value(v),
        ),
{
    let ghost old_view = view_value_ent(out@);
    match find_value_key(out, key.as_slice(), 0) {
        Some(i) => {
            out.set(i, (key, v));
            proof {
                assert(view_value_ent(out@) =~= old_view.update(i as int, (key@, view_value(v))));
            }
        },
        None => {
            out.push((key, v));
            proof {
                assert(out@.drop_last() =~= old(out)@);
                assert(view_value_ent(out@) =~= old_view.push((key@, view_value(v))));
            }
        },
    }
}

/// A static literal value: a number, string, boolean, array, object or
/// `null`, the alternatives tried in that order.
pub open spec fn spec_value(s: Seq<u8>, i: nat) -> Step<ValueV>
    decreases s.len() - i, 4int,
{
    match spec_number(s, i) {
        Step::Hit(n, v) => Step::Hit(n, ValueV::Number(v)),
        Step::Fail(p) => Step::Fail(p),
        Step::Miss(_) => match spec_string(s, i) {
            Step::Hit(n, v) => Step::Hit(n, ValueV::String(v)),
            Step::Fail(p) => Step::Fail(p),
            Step::Miss(_) => match spec_boolean(s, i) {
                Step::Hit(n, v) => Step::Hit(n, ValueV::Bool(v)),
                Step::Fail(p) => Step::Fail(p),
                Step::Miss(_) => match spec_array(s, i) {
                    Step::Hit(n, v) => Step::Hit(n, ValueV::Array(v)),
                    Step::Fail(p) => Step::Fail(p),
                    Step::Miss(_) => match spec_object(s, i) {
                        Step::Hit(n, v) => Step::Hit(n, ValueV::Object(v)),
                        Step::Fail(p) => Step::Fail(p),
                        Step::Miss(_) => match spec_null(s, i) {
                            Step::Hit(n, _) => Step::Hit(n, ValueV::Null),
                            Step::Fail(p) => Step::Fail(p),
                            Step::Miss(_) => Step::Miss(i as usize),
                        },
                    },
                },
            },
        },
    }
}

/// An array of static values: `[` elements `]`, the closing bracket
/// committed.
pub open spec fn spec_array(s: Seq<u8>, i: nat) -> Step<Seq<ValueV>>
    decreases s.len() - i, 3int,
{
    let j = spec_ws(s, i);
    if j < s.len() && s[j as int] == 91 {
        let q0 = spec_ws(s, (j + 1) as nat);
        if !(i < q0 <= s.len()) {
            Step::Fail(q0 as usize)
        } else {
            match spec_value(s, q0) {
                Step::Fail(p) => Step::Fail(p),
                Step::Miss(_) => spec_close_bracket(s, q0, Seq::empty()),
                Step::Hit(k0, v0) => {
                    let k = spec_ws(s, k0 as nat);
                    if !(q0 < k <= s.len()) {
                        Step::Fail(k as usize)
                    } else {
                        match spec_value_list(s, k, seq![v0]) {
                            Step::Fail(p) => Step::Fail(p),
                            Step::Miss(p) => Step::Miss(p),
                            Step::Hit(endp, items) => spec_close_bracket(s, endp as nat, items),
                        }
                    }
                },
            }
        }
    } else {
        Step::Miss(i as usize)
    }
}

/// The committed closing bracket of an array, whitespace allowed.
pub open spec fn spec_close_bracket(s: Seq<u8>, p: nat, items: Seq<ValueV>) -> Step<
    Seq<ValueV>,
> {
    let q = spec_ws(s, p);
    if q < s.len() && s[q as int] == 93 {
        Step::Hit(spec_ws(s, (q + 1) as nat) as usize, items)
    } else {
        Step::Fail(q as usize)
    }
}

/// Further comma-separated values after the first; a missing element after a
/// comma ends the list before the comma, as the grammar backtracks there.
pub open spec fn spec_value_list(s: Seq<u8>, p: nat, acc: Seq<ValueV>) -> Step<Seq<ValueV>>
    decreases s.len() - p, 3int,
{
    let c = spec_ws(s, p);
    if c < s.len() && s[c as int] == 44 {
        let q = spec_ws(s, (c + 1) as nat);
        if !(p < q <= s.len()) {
            Step::Fail(q as usize)
        } else {
            match spec_value(s, q) {
                Step::Fail(pp) => Step::Fail(pp),
                Step::Miss(_) => Step::Hit(p as usize, acc),
                Step::Hit(k0, v) => {
                    let k = spec_ws(s, k0 as nat);
                    if !(p < k <= s.len()) {
                        Step::Fail(k as usize)
                    } else {
                        spec_value_list(s, k, acc.push(v))
                    }
                },
            }
        }
    } else {
        Step::Hit(p as usize, acc)
    }
}

/// An object of static values: `{` entries `}`, keys inserted in order with
/// replacement; the closing brace is not committed here.
pub open spec fn spec_object(s: Seq<u8>, i: nat) -> Step<Seq<(Seq<u8>, ValueV)>>
    decreases s.len() - i, 3int,
{
    let j = spec_ws(s, i);
    if j < s.len() && s[j as int] == 123 {
        let q0 = spec_ws(s, (j + 1) as nat);
        if !(i < q0 <= s.len()) {
            Step::Fail(q0 as usize)
        } else {
            match spec_object_entry(s, q0) {
                Step::Fail(p) => Step::Fail(p),
                Step::Miss(_) => spec_close_obj(s, q0, Seq::empty()),
                Step::Hit(k, kv) => {
                    if !(q0 < k as nat <= s.len()) {
                        Step::Fail(k)
                    } else {
                        match spec_entry_list(s, k as nat, spec_set_kv(Seq::empty(), kv.0, kv.1)) {
                            Step::Fail(p) => Step::Fail(p),
                            Step::Miss(p) => Step::Miss(p),
                            Step::Hit(endp, ents) => spec_close_obj(s, endp as nat, ents),
                        }
                    }
                },
            }
        }
    } else {
        Step::Miss(i as usize)
    }
}

/// The closing brace of a static-value object; a miss, not a failure.
pub open spec fn spec_close_obj(s: Seq<u8>, p: nat, ents: Seq<(Seq<u8>, ValueV)>) -> Step<
    Seq<(Seq<u8>, ValueV)>,
> {
    let q = spec_ws(s, p);
    if q < s.len() && s[q as int] == 125 {
        Step::Hit(spec_ws(s, (q + 1) as nat) as usize, ents)
    } else {
        Step::Miss(q as usize)
    }
}

/// One `"key": value` entry; whitespace around key and value.
pub open spec fn spec_object_entry(s: Seq<u8>, p: nat) -> Step<(Seq<u8>, ValueV)>
    decreases s.len() - p, 2int,
{
    let q = spec_ws(s, p);
    match spec_string(s, q) {
        Step::Fail(pp) => Step::Fail(pp),
        Step::Miss(pp) => Step::Miss(pp),
        Step::Hit(k0, key) => {
            let k = spec_ws(s, k0 as nat);
            if k < s.len() && s[k as int] == 58 {
                let v0 = spec_ws(s, (k + 1) as nat);
                if !(p < v0 <= s.len()) {
                    Step::Fail(v0 as usize)
                } else {
                    match spec_value(s, v0) {
                        Step::Fail(pp) => Step::Fail(pp),
                        Step::Miss(pp) => Step::Miss(pp),
                        Step::Hit(n, v) => Step::Hit(spec_ws(s, n as nat) as usize, (key, v)),
                    }
                }
            } else {
                Step::Miss(k as usize)
            }
        },
    }
}

/// Further comma-separated object entries.
pub open spec fn spec_entry_list(s: Seq<u8>, p: nat, acc: Seq<(Seq<u8>, ValueV)>) -> Step<
    Seq<(Seq<u8>, ValueV)>,
>
    decreases s.len() - p, 3int,
{
    let c = spec_ws(s, p);
    if c < s.len() && s[c as int] == 44 {
        let q = spec_ws(s, (c + 1) as nat);
        if !(p < q <= s.len()) {
            Step::Fail(q as usize)
        } else {
            match spec_object_entry(s, q) {
                Step::Fail(pp) => Step::Fail(pp),
                Step::Miss(_) => Step::Hit(p as usize, acc),
                Step::Hit(k, kv) => {
                    if !(p < k as nat <= s.len()) {
                        Step::Fail(k)
                    } else {
                        spec_entry_list(s, k as nat, spec_set_kv(acc, kv.0, kv.1))
                    }
                },
            }
        }
    } else {
        Step::Hit(p as usize, acc)
    }
}

/// A static literal value (see `spec_value`).
pub fn value(s: &[u8], i: usize) -> (r: Step<Value>)
    requires
        i <= s@.len(),
    ensures
        step_view(r, |v: Value| view_value(v)) == spec_value(s@, i as nat),
        r matches Step::Hit(n, _) ==> i <= n <= s@.len(),
    decreases s@.len() - i, 4int,
{
    match number(s, i) {
        Step::Hit(n, v) => {
            return Step::Hit(n, Value::Number(v));
        },
        Step::Fail(p) => {
            return Step::Fail(p);
        },
        Step::Miss(_) => {},
    }
    match string(s, i) {
        Step::Hit(n, v) => {
            return Step::Hit(n, Value::String(v));
        },
        Step::Fail(p) => {
            return Step::Fail(p);
        },
        Step::Miss(_) => {},
    }
    match boolean(s, i) {
        Step::Hit(n, v) => {
            return Step::Hit(n, Value::Bool(v));
        },
        Step::Fail(p) => {
            return Step::Fail(p);
        },
        Step::Miss(_) => {},
    }
    match array(s, i) {
        Step::Hit(n, v) => {
            return Step::Hit(n, Value::Array(v));
        },
        Step::Fail(p) => {
            return Step::Fail(p);
        },
        Step::Miss(_) => {},
    }
    match object(s, i) {
        Step::Hit(n, v) => {
            return Step::Hit(n, Value::Object(v));
        },
        Step::Fail(p) => {
            return Step::Fail(p);
        },
        Step::Miss(_) => {},
    }
    match null(s, i) {
        Step::Hit(n, _) => Step::Hit(n, Value::Null),
        Step::Fail(p) => Step::Fail(p),
        Step::Miss(_) => Step::Miss(i),
    }
}

/// An array of static values (see `spec_array`).
#[verifier::rlimit(60)]
pub fn array(s: &[u8], i: usize) -> (r: Step<Vec<Value>>)
    requires
        i <= s@.len(),
    ensures
        step_view(r, |v: Vec<Value>| view_values(v@)) == spec_array(s@, i as nat),
        r matches Step::Hit(n, _) ==> i <= n <= s@.len(),
    decreases s@.len() - i, 3int,
{
    proof {
        vstd::slice::axiom_spec_len(s);
    }
    let j = skip_ws(s, i);
    if j < s.len() && s[j] == 91 {
        let q0 = skip_ws(s, j + 1);
        let mut out: Vec<Value> = Vec::new();
        let first = value(s, q0);
        match first {
            Step::Fail(p) => {
                return Step::Fail(p);
            },
            Step::Miss(_) => {
                proof {
                    assert(view_values(out@) =~= Seq::<ValueV>::empty());
                }
                return close_bracket(s, q0, out);
            },
            Step::Hit(k0, v0) => {
                out.push(v0);
                let mut p: usize = skip_ws(s, k0);
                proof {
                    assert(view_values(out@) =~= seq![view_value(v0)]);
                }
                loop
                    invariant
                        i < p <= s@.len(),
                        spec_array(s@, i as nat) == (match spec_value_list(
                            s@,
                            p as nat,
                            view_values(out@),
                        ) {
                            Step::Fail(pp) => Step::Fail::<Seq<ValueV>>(pp),
                            Step::Miss(pp) => Step::Miss(pp),
                            Step::Hit(endp, items) => spec_close_bracket(s@, endp as nat, items),
                        }),
                    decreases s@.len() - p,
                {
                    proof {
                        vstd::slice::axiom_spec_len(s);
                    }
                    let c = skip_ws(s, p);
                    if c < s.len() && s[c] == 44 {
                        let q = skip_ws(s, c + 1);
                        match value(s, q) {
                            Step::Fail(pp) => {
                                return Step::Fail(pp);
                            },
                            Step::Miss(_) => {
                                return close_bracket(s, p, out);
                            },
                            Step::Hit(k1, v) => {
                                let k = skip_ws(s, k1);
                                let ghost prev = view_values(out@);
                                out.push(v);
                                proof {
                                    assert(out@.drop_last() =~= out@.subrange(
                                        0,
                                        out@.len() - 1,
                                    ));
                                    assert(view_values(out@) =~= prev.push(view_value(v)));
                                }
                                p = k;
                            },
                        }
                    } else {
                        return close_bracket(s, p, out);
                    }
                }
            },
        }
    } else {
        Step::Miss(i)
    }
}

fn close_bracket(s: &[u8], p: usize, items: Vec<Value>) -> (r: Step<Vec<Value>>)
    requires
        p <= s@.len(),
    ensures
        step_view(r, |v: Vec<Value>| view_values(v@)) == spec_close_bracket(
            s@,
            p as nat,
            view_values(items@),
        ),
        r matches Step::Hit(n, _) ==> p <= n <= s@.len(),
{
    let q = skip_ws(s, p);
    if q < s.len() && s[q] == 93 {
        Step::Hit(skip_ws(s, q + 1), items)
    } else {
        Step::Fail(q)
    }
}

fn close_obj(s: &[u8], p: usize, ents: Vec<(Vec<u8>, Value)>) -> (r: Step<
    Vec<(Vec<u8>, Value)>,
>)
    requires
        p <= s@.len(),
    ensures
        step_view(r, |v: Vec<(Vec<u8>, Value)>| view_value_ent(v@)) == spec_close_obj(
            s@,
            p as nat,
            view_value_ent(ents@),
        ),
        r matches Step::Hit(n, _) ==> p <= n <= s@.len(),
{
    let q = skip_ws(s, p);
    if q < s.len() && s[q] == 125 {
        Step::Hit(skip_ws(s, q + 1), ents)
    } else {
        Step::Miss(q)
    }
}

/// One `"key": value` entry (see `spec_object_entry`).
fn object_entry(s: &[u8], p: usize) -> (r: Step<(Vec<u8>, Value)>)
    requires
        p <= s@.len(),
    ensures
        step_view(r, |kv: (Vec<u8>, Value)| (kv.0@, view_value(kv.1))) == spec_object_entry(
            s@,
            p as nat,
        ),
        r matches Step::Hit(n, _) ==> p < n <= s@.len(),
    decreases s@.len() - p, 2int,
{
    proof {
        vstd::slice::axiom_spec_len(s);
    }
    let q = skip_ws(s, p);
    match string(s, q) {
        Step::Fail(pp) => Step::Fail(pp),
        Step::Miss(pp) => Step::Miss(pp),
        Step::Hit(k0, key) => {
            let k = skip_ws(s, k0);
            if k < s.len() && s[k] == 58 {
                let v0 = skip_ws(s, k + 1);
                match value(s, v0) {
                    Step::Fail(pp) => Step::Fail(pp),
                    Step::Miss(pp) => Step::Miss(pp),
                    Step::Hit(n, v) => Step::Hit(skip_ws(s, n), (key, v)),
                }
            } else {
                Step::Miss(k)
            }
        },
    }
}

/// An object of static values (see `spec_object`).
#[verifier::rlimit(60)]
pub fn object(s: &[u8], i: usize) -> (r: Step<Vec<(Vec<u8>, Value)>>)
    requires
        i <= s@.len(),
    ensures
        step_view(r, |v: Vec<(Vec<u8>, Value)>| view_value_ent(v@)) == spec_object(s@, i as nat),
        r matches Step::Hit(n, _) ==> i <= n <= s@.len(),
    decreases s@.len() - i, 3int,
{
    proof {
        vstd::slice::axiom_spec_len(s);
    }
    let j = skip_ws(s, i);
    if j < s.len() && s[j] == 123 {
        let q0 = skip_ws(s, j + 1);
        let mut out: Vec<(Vec<u8>, Value)> = Vec::new();
        match object_entry(s, q0) {
            Step::Fail(p) => {
                return Step::Fail(p);
            },
            Step::Miss(_) => {
                proof {
                    assert(view_value_ent(out@) =~= Seq::<(Seq<u8>, ValueV)>::empty());
                }
                return close_obj(s, q0, out);
            },
            Step::Hit(k0, kv) => {
                proof {
                    assert(view_value_ent(out@) =~= Seq::<(Seq<u8>, ValueV)>::empty());
                }
                insert_value_entry(&mut out, kv.0, kv.1);
                let mut p: usize = k0;
                loop
                    invariant
                        i < p <= s@.len(),
                        spec_object(s@, i as nat) == (match spec_entry_list(
                            s@,
                            p as nat,
                            view_value_ent(out@),
                        ) {
                            Step::Fail(pp) => Step::Fail::<Seq<(Seq<u8>, ValueV)>>(pp),
                            Step::Miss(pp) => Step::Miss(pp),
                            Step::Hit(endp, ents) => spec_close_obj(s@, endp as nat, ents),
                        }),
                    decreases s@.len() - p,
                {
                    proof {
                        vstd::slice::axiom_spec_len(s);
                    }
                    let c = skip_ws(s, p);
                    if c < s.len() && s[c] == 44 {
                        let q = skip_ws(s, c + 1);
                        match object_entry(s, q) {
                            Step::Fail(pp) => {
                                return Step::Fail(pp);
                            },
                            Step::Miss(_) => {
                                return close_obj(s, p, out);
                            },
                            Step::Hit(k1, kv) => {
                                insert_value_entry(&mut out, kv.0, kv.1);
                                p = k1;
                            },
                        }
                    } else {
                        return close_obj(s, p, out);
                    }
                }
            },
        }
    } else {
        Step::Miss(i)
    }
}


/// A quoted operator name followed by a colon: `"$name":`, whitespace
/// allowed around the quoted token.
pub open spec fn spec_operator_name(s: Seq<u8>, i: nat, name: Seq<u8>) -> Step<()> {
    let j = spec_ws(s, i);
    if j < s.len() && s[j as int] == 34 && spec_tag_at(s, (j + 1) as nat, name) && j + 1
        + name.len() < s.len() && s[j as int + 1 + name.len() as int] == 34 {
        let k = spec_ws(s, (j + name.len() + 2) as nat);
        if k < s.len() && s[k as int] == 58 {
            Step::Hit((k + 1) as usize, ())
        } else {
            Step::Miss(i as usize)
        }
    } else {
        Step::Miss(i as usize)
    }
}

pub fn operator_name(s: &[u8], i: usize, name: &[u8]) -> (r: Step<()>)
    requires
        i <= s@.len(),
    ensures
        r == spec_operator_name(s@, i as nat, name@),
        r matches Step::Hit(n, _) ==> i < n <= s@.len(),
{
    proof {
        vstd::slice::axiom_spec_len(s);
        vstd::slice::axiom_spec_len(name);
    }
    let j = skip_ws(s, i);
    if j < s.len() && s[j] == 34 && tag_at(s, j + 1, name) && s.len() - j - 1 > name.len() && s[j
        + 1 + name.len()] == 34 {
        let k = skip_ws(s, j + name.len() + 2);
        if k < s.len() && s[k] == 58 {
            Step::Hit(k + 1, ())
        } else {
            Step::Miss(i)
        }
    } else {
        Step::Miss(i)
    }
}

pub open spec fn spec_gt_name() -> Seq<u8> {
    seq![36u8, 103u8, 116u8]
}

pub open spec fn spec_gte_name() -> Seq<u8> {
    seq![36u8, 103u8, 116u8, 101u8]
}

pub open spec fn spec_lt_name() -> Seq<u8> {
    seq![36u8, 108u8, 116u8]
}

pub open spec fn spec_lte_name() -> Seq<u8> {
    seq![36u8, 108u8, 116u8, 101u8]
}

pub open spec fn spec_eq_name() -> Seq<u8> {
    seq![36u8, 101u8, 113u8]
}

pub open spec fn spec_ne_name() -> Seq<u8> {
    seq![36u8, 110u8, 101u8]
}

pub open spec fn spec_between_name() -> Seq<u8> {
    seq![36u8, 98u8, 101u8, 116u8, 119u8, 101u8, 101u8, 110u8]
}

pub open spec fn spec_in_name() -> Seq<u8> {
    seq![36u8, 105u8, 110u8]
}

pub open spec fn spec_not_name() -> Seq<u8> {
    seq![36u8, 110u8, 111u8, 116u8]
}

pub open spec fn spec_and_name() -> Seq<u8> {
    seq![36u8, 97u8, 110u8, 100u8]
}

pub open spec fn spec_or_name() -> Seq<u8> {
    seq![36u8, 111u8, 114u8]
}

/// A predicate: an operator list in braces, or a bare literal the subject
/// must equal.
pub open spec fn spec_predicate(s: Seq<u8>, i: nat) -> Step<PredV>
    decreases s.len() - i, 8int,
{
    match spec_operators(s, i) {
        Step::Hit(n, ops) => Step::Hit(n, PredV::Operators(ops)),
        Step::Fail(p) => Step::Fail(p),
        Step::Miss(_) => match spec_value(s, i) {
            Step::Hit(n, v) => Step::Hit(n, PredV::Leaf(v)),
            Step::Fail(p) => Step::Fail(p),
            Step::Miss(p) => Step::Miss(p),
        },
    }
}

/// A brace-enclosed, comma-separated, nonempty list of predicate operators.
pub open spec fn spec_operators(s: Seq<u8>, i: nat) -> Step<Seq<OpV>>
    decreases s.len() - i, 7int,
{
    let j = spec_ws(s, i);
    if j < s.len() && s[j as int] == 123 {
        let q0 = spec_ws(s, (j + 1) as nat);
        if !(i < q0 <= s.len()) {
            Step::Fail(q0 as usize)
        } else {
            match spec_operator(s, q0) {
                Step::Fail(p) => Step::Fail(p),
                Step::Miss(p) => Step::Miss(p),
                Step::Hit(k, op) => {
                    if !(q0 < k as nat <= s.len()) {
                        Step::Fail(k)
                    } else {
                        spec_ops_tail(s, k as nat, seq![op])
                    }
                },
            }
        }
    } else {
        Step::Miss(i as usize)
    }
}

/// The rest of an operator list and its closing brace.
pub open spec fn spec_ops_tail(s: Seq<u8>, p: nat, acc: Seq<OpV>) -> Step<Seq<OpV>>
    decreases s.len() - p, 8int,
{
    match spec_op_list(s, p, acc) {
        Step::Fail(pp) => Step::Fail(pp),
        Step::Miss(pp) => Step::Miss(pp),
        Step::Hit(endp, ops) => spec_close_ops(s, endp as nat, ops),
    }
}

/// The closing brace of an operator list; a miss, not a failure.
pub open spec fn spec_close_ops(s: Seq<u8>, p: nat, ops: Seq<OpV>) -> Step<Seq<OpV>> {
    let q = spec_ws(s, p);
    if q < s.len() && s[q as int] == 125 {
        Step::Hit(spec_ws(s, (q + 1) as nat) as usize, ops)
    } else {
        Step::Miss(q as usize)
    }
}

/// Further comma-separated predicate operators.
pub open spec fn spec_op_list(s: Seq<u8>, p: nat, acc: Seq<OpV>) -> Step<Seq<OpV>>
    decreases s.len() - p, 7int,
{
    let c = spec_ws(s, p);
    if c < s.len() && s[c as int] == 44 {
        let q = spec_ws(s, (c + 1) as nat);
        if !(p < q <= s.len()) {
            Step::Fail(q as usize)
        } else {
            match spec_operator(s, q) {
                Step::Fail(pp) => Step::Fail(pp),
                Step::Miss(_) => Step::Hit(p as usize, acc),
                Step::Hit(k, op) => {
                    if !(p < k as nat <= s.len()) {
                        Step::Fail(k)
                    } else {
                        spec_op_list(s, k as nat, acc.push(op))
                    }
                },
            }
        }
    } else {
        Step::Hit(p as usize, acc)
    }
}

/// The comparison-style operators share one argument shape: a committed
/// literal value after the name.
#[verifier::opaque]
pub open spec fn spec_value_arg(s: Seq<u8>, i: nat, name: Seq<u8>) -> Step<ValueV>
    decreases s.len() - i, 2int,
{
    match spec_operator_name(s, i, name) {
        Step::Miss(p) => Step::Miss(p),
        Step::Fail(p) => Step::Fail(p),
        Step::Hit(k, _) => {
            let q = spec_ws(s, k as nat);
            if !(i < q <= s.len()) {
                Step::Fail(q as usize)
            } else {
                match spec_value(s, q) {
                    Step::Hit(n, v) => Step::Hit(spec_ws(s, n as nat) as usize, v),
                    _ => Step::Fail(q as usize),
                }
            }
        },
    }
}

/// One predicate operator: a field constraint, or one of the named
/// operators, tried in the grammar's order.
pub open spec fn spec_operator(s: Seq<u8>, i: nat) -> Step<OpV>
    decreases s.len() - i, 6int,
{
    match spec_field_operator(s, i) {
        Step::Hit(n, op) => Step::Hit(n, op),
        Step::Fail(p) => Step::Fail(p),
        Step::Miss(_) => spec_operator_cmp(s, i),
    }
}

/// The ordered comparison alternatives of an operator.
pub open spec fn spec_operator_cmp(s: Seq<u8>, i: nat) -> Step<OpV>
    decreases s.len() - i, 5int,
{
    match spec_value_arg(s, i, spec_gt_name()) {
        Step::Hit(n, v) => Step::Hit(n, OpV::Gt(v)),
        Step::Fail(p) => Step::Fail(p),
        Step::Miss(_) => match spec_value_arg(s, i, spec_gte_name()) {
            Step::Hit(n, v) => Step::Hit(n, OpV::Gte(v)),
            Step::Fail(p) => Step::Fail(p),
            Step::Miss(_) => match spec_value_arg(s, i, spec_lt_name()) {
                Step::Hit(n, v) => Step::Hit(n, OpV::Lt(v)),
                Step::Fail(p) => Step::Fail(p),
                Step::Miss(_) => match spec_value_arg(s, i, spec_lte_name()) {
                    Step::Hit(n, v) => Step::Hit(n, OpV::Lte(v)),
                    Step::Fail(p) => Step::Fail(p),
                    Step::Miss(_) => spec_operator_eqs(s, i),
                },
            },
        },
    }
}

/// The equality-style alternatives of an operator.
pub open spec fn spec_operator_eqs(s: Seq<u8>, i: nat) -> Step<OpV>
    decreases s.len() - i, 4int,
{
    match spec_between_operator(s, i) {
        Step::Hit(n, op) => Step::Hit(n, op),
        Step::Fail(p) => Step::Fail(p),
        Step::Miss(_) => match spec_value_arg(s, i, spec_eq_name()) {
            Step::Hit(n, v) => Step::Hit(n, OpV::Eq(v)),
            Step::Fail(p) => Step::Fail(p),
            Step::Miss(_) => match spec_value_arg(s, i, spec_ne_name()) {
                Step::Hit(n, v) => Step::Hit(n, OpV::Ne(v)),
                Step::Fail(p) => Step::Fail(p),
                Step::Miss(_) => spec_operator_logic(s, i),
            },
        },
    }
}

/// The list- and predicate-valued alternatives of an operator.
pub open spec fn spec_operator_logic(s: Seq<u8>, i: nat) -> Step<OpV>
    decreases s.len() - i, 3int,
{
    match spec_in_operator(s, i) {
        Step::Hit(n, op) => Step::Hit(n, op),
        Step::Fail(p) => Step::Fail(p),
        Step::Miss(_) => match spec_not_operator(s, i) {
            Step::Hit(n, op) => Step::Hit(n, op),
            Step::Fail(p) => Step::Fail(p),
            Step::Miss(_) => match spec_and_operator(s, i) {
                Step::Hit(n, op) => Step::Hit(n, op),
                Step::Fail(p) => Step::Fail(p),
                Step::Miss(_) => match spec_or_operator(s, i) {
                    Step::Hit(n, op) => Step::Hit(n, op),
                    Step::Fail(p) => Step::Fail(p),
                    Step::Miss(p) => Step::Miss(p),
                },
            },
        },
    }
}

/// A field constraint: a non-`$` path key, a colon, and a predicate.
pub open spec fn spec_field_operator(s: Seq<u8>, i: nat) -> Step<OpV>
    decreases s.len() - i, 5int,
{
    let j = spec_ws(s, i);
    match spec_field(s, j) {
        Step::Miss(p) => Step::Miss(p),
        Step::Fail(p) => Step::Fail(p),
        Step::Hit(n, path) => {
            let k = spec_ws(s, n as nat);
            if k < s.len() && s[k as int] == 58 {
                let q = spec_ws(s, (k + 1) as nat);
                if !(i < q <= s.len()) {
                    Step::Fail(q as usize)
                } else {
                    match spec_predicate(s, q) {
                        Step::Miss(p) => Step::Miss(p),
                        Step::Fail(p) => Step::Fail(p),
                        Step::Hit(n2, pred) => Step::Hit(
                            spec_ws(s, n2 as nat) as usize,
                            OpV::Field(path, pred),
                        ),
                    }
                }
            } else {
                Step::Miss(k as usize)
            }
        },
    }
}

/// `$between` with a committed two-element argument list.
#[verifier::opaque]
pub open spec fn spec_between_operator(s: Seq<u8>, i: nat) -> Step<OpV>
    decreases s.len() - i, 2int,
{
    match spec_operator_name(s, i, spec_between_name()) {
        Step::Miss(p) => Step::Miss(p),
        Step::Fail(p) => Step::Fail(p),
        Step::Hit(k, _) => {
            let w1 = spec_ws(s, k as nat);
            if w1 < s.len() && s[w1 as int] == 91 {
                let w2 = spec_ws(s, (w1 + 1) as nat);
                if !(i < w2 <= s.len()) {
                    Step::Fail(w2 as usize)
                } else {
                    match spec_value(s, w2) {
                        Step::Hit(n1, v1) => {
                            let c = spec_ws(s, n1 as nat);
                            if c < s.len() && s[c as int] == 44 {
                                let w3 = spec_ws(s, (c + 1) as nat);
                                if !(i < w3 <= s.len()) {
                                    Step::Fail(w3 as usize)
                                } else {
                                    match spec_value(s, w3) {
                                        Step::Hit(n2, v2) => {
                                            let cb = spec_ws(s, n2 as nat);
                                            if cb < s.len() && s[cb as int] == 93 {
                                                Step::Hit(
                                                    spec_ws(
                                                        s,
                                                        spec_ws(s, (cb + 1) as nat),
                                                    ) as usize,
                                                    OpV::Between(v1, v2),
                                                )
                                            } else {
                                                Step::Fail(cb as usize)
                                            }
                                        },
                                        _ => Step::Fail(w3 as usize),
                                    }
                                }
                            } else {
                                Step::Fail(c as usize)
                            }
                        },
                        _ => Step::Fail(w2 as usize),
                    }
                }
            } else {
                Step::Fail(w1 as usize)
            }
        },
    }
}

/// `$in` with a committed array of literal values.
#[verifier::opaque]
pub open spec fn spec_in_operator(s: Seq<u8>, i: nat) -> Step<OpV>
    decreases s.len() - i, 2int,
{
    match spec_operator_name(s, i, spec_in_name()) {
        Step::Miss(p) => Step::Miss(p),
        Step::Fail(p) => Step::Fail(p),
        Step::Hit(k, _) => {
            let q = spec_ws(s, k as nat);
            if !(i < q <= s.len()) {
                Step::Fail(q as usize)
            } else {
                match spec_array(s, q) {
                    Step::Hit(n, items) => Step::Hit(
                        spec_ws(s, n as nat) as usize,
                        OpV::In(items),
                    ),
                    _ => Step::Fail(q as usize),
                }
            }
        },
    }
}

/// `$not` with a committed inner predicate.
pub open spec fn spec_not_operator(s: Seq<u8>, i: nat) -> Step<OpV>
    decreases s.len() - i, 2int,
{
    match spec_operator_name(s, i, spec_not_name()) {
        Step::Miss(p) => Step::Miss(p),
        Step::Fail(p) => Step::Fail(p),
        Step::Hit(k, _) => {
            let q = spec_ws(s, k as nat);
            if !(i < q <= s.len()) {
                Step::Fail(q as usize)
            } else {
                match spec_predicate(s, q) {
                    Step::Hit(n, pred) => Step::Hit(
                        spec_ws(s, n as nat) as usize,
                        OpV::Not(pred),
                    ),
                    _ => Step::Fail(q as usize),
                }
            }
        },
    }
}

/// `$and` with a committed array of predicates.
pub open spec fn spec_and_operator(s: Seq<u8>, i: nat) -> Step<OpV>
    decreases s.len() - i, 2int,
{
    match spec_operator_name(s, i, spec_and_name()) {
        Step::Miss(p) => Step::Miss(p),
        Step::Fail(p) => Step::Fail(p),
        Step::Hit(k, _) => {
            let q = spec_ws(s, k as nat);
            if !(i < q <= s.len()) {
                Step::Fail(q as usize)
            } else {
                match spec_pred_array(s, q) {
                    Step::Hit(n, preds) => Step::Hit(
                        spec_ws(s, n as nat) as usize,
                        OpV::And(preds),
                    ),
                    _ => Step::Fail(q as usize),
                }
            }
        },
    }
}

/// `$or` with a committed array of predicates.
pub open spec fn spec_or_operator(s: Seq<u8>, i: nat) -> Step<OpV>
    decreases s.len() - i, 2int,
{
    match spec_operator_name(s, i, spec_or_name()) {
        Step::Miss(p) => Step::Miss(p),
        Step::Fail(p) => Step::Fail(p),
        Step::Hit(k, _) => {
            let q = spec_ws(s, k as nat);
            if !(i < q <= s.len()) {
                Step::Fail(q as usize)
            } else {
                match spec_pred_array(s, q) {
                    Step::Hit(n, preds) => Step::Hit(
                        spec_ws(s, n as nat) as usize,
                        OpV::Or(preds),
                    ),
                    _ => Step::Fail(q as usize),
                }
            }
        },
    }
}

/// A bracketed, comma-separated list of predicates, the closing bracket
/// committed.
pub open spec fn spec_pred_array(s: Seq<u8>, i: nat) -> Step<Seq<PredV>>
    decreases s.len() - i, 1int,
{
    let j = spec_ws(s, i);
    if j < s.len() && s[j as int] == 91 {
        let q0 = spec_ws(s, (j + 1) as nat);
        if !(i < q0 <= s.len()) {
            Step::Fail(q0 as usize)
        } else {
            match spec_predicate(s, q0) {
                Step::Fail(p) => Step::Fail(p),
                Step::Miss(_) => spec_close_preds(s, q0, Seq::empty()),
                Step::Hit(k0, p0) => {
                    let k = spec_ws(s, k0 as nat);
                    if !(q0 < k <= s.len()) {
                        Step::Fail(k as usize)
                    } else {
                        spec_preds_tail(s, k, seq![p0])
                    }
                },
            }
        }
    } else {
        Step::Miss(i as usize)
    }
}

/// The rest of a predicate list and its committed closing bracket.
pub open spec fn spec_preds_tail(s: Seq<u8>, p: nat, acc: Seq<PredV>) -> Step<Seq<PredV>>
    decreases s.len() - p, 2int,
{
    match spec_pred_list(s, p, acc) {
        Step::Fail(pp) => Step::Fail(pp),
        Step::Miss(pp) => Step::Miss(pp),
        Step::Hit(endp, preds) => spec_close_preds(s, endp as nat, preds),
    }
}

/// The committed closing bracket of a predicate array.
pub open spec fn spec_close_preds(s: Seq<u8>, p: nat, preds: Seq<PredV>) -> Step<Seq<PredV>> {
    let q = spec_ws(s, p);
    if q < s.len() && s[q as int] == 93 {
        Step::Hit(spec_ws(s, (q + 1) as nat) as usize, preds)
    } else {
        Step::Fail(q as usize)
    }
}

/// Further comma-separated predicates.
pub open spec fn spec_pred_list(s: Seq<u8>, p: nat, acc: Seq<PredV>) -> Step<Seq<PredV>>
    decreases s.len() - p, 1int,
{
    let c = spec_ws(s, p);
    if c < s.len() && s[c as int] == 44 {
        let q = spec_ws(s, (c + 1) as nat);
        if !(p < q <= s.len()) {
            Step::Fail(q as usize)
        } else {
            match spec_predicate(s, q) {
                Step::Fail(pp) => Step::Fail(pp),
                Step::Miss(_) => Step::Hit(p as usize, acc),
                Step::Hit(k0, v) => {
                    let k = spec_ws(s, k0 as nat);
                    if !(p < k <= s.len()) {
                        Step::Fail(k as usize)
                    } else {
                        spec_pred_list(s, k, acc.push(v))
                    }
                },
            }
        }
    } else {
        Step::Hit(p as usize, acc)
    }
}


/// A predicate (see `spec_predicate`).
#[verifier::rlimit(60)]
pub fn predicate(s: &[u8], i: usize) -> (r: Step<Predicate>)
    requires
        i <= s@.len(),
    ensures
        step_view(r, |p: Predicate| crate::ast_views::view_pred(p)) == spec_predicate(
            s@,
            i as nat,
        ),
        r matches Step::Hit(n, _) ==> i <= n <= s@.len(),
    decreases s@.len() - i, 8int,
{
    proof {
        reveal(spec_predicate);
    }
    match operators(s, i) {
        Step::Hit(n, ops) => {
            return Step::Hit(n, Predicate::Operators(ops));
        },
        Step::Fail(p) => {
            return Step::Fail(p);
        },
        Step::Miss(_) => {},
    }
    match value(s, i) {
        Step::Hit(n, v) => Step::Hit(n, Predicate::Leaf(crate::ast::LeafValue(v))),
        Step::Fail(p) => Step::Fail(p),
        Step::Miss(p) => Step::Miss(p),
    }
}

/// A brace-enclosed operator list (see `spec_operators`).
#[verifier::rlimit(100)]
#[verifier::spinoff_prover]
pub fn operators(s: &[u8], i: usize) -> (r: Step<Vec<Operator>>)
    requires
        i <= s@.len(),
    ensures
        step_view(r, |v: Vec<Operator>| crate::ast_views::view_ops(v@)) == spec_operators(
            s@,
            i as nat,
        ),
        r matches Step::Hit(n, _) ==> i <= n <= s@.len(),
    decreases s@.len() - i, 7int,
{
    proof {
        reveal(spec_operators);
    }
    proof {
        vstd::slice::axiom_spec_len(s);
    }
    let j = skip_ws(s, i);
    if j < s.len() && s[j] == 123 {
        let q0 = skip_ws(s, j + 1);
        let mut out: Vec<Operator> = Vec::new();
        match operator(s, q0) {
            Step::Fail(p) => Step::Fail(p),
            Step::Miss(p) => Step::Miss(p),
            Step::Hit(k0, op) => {
                if !(q0 < k0 && k0 <= s.len()) {
                    return Step::Fail(k0);
                }
                let ghost before = crate::ast_views::view_ops(out@);
                out.push(op);
                proof {
                    assert(out@.drop_last() =~= Seq::<Operator>::empty());
                    assert(crate::ast_views::view_ops(out@) =~= seq![
                        crate::ast_views::view_op(op),
                    ]);
                }
                ops_tail(s, k0, out)
            },
        }
    } else {
        Step::Miss(i)
    }
}

/// The rest of an operator list and its closing brace (see `spec_ops_tail`).
#[verifier::rlimit(60)]
fn ops_tail(s: &[u8], p: usize, ops: Vec<Operator>) -> (r: Step<Vec<Operator>>)
    requires
        p <= s@.len(),
    ensures
        step_view(r, |v: Vec<Operator>| crate::ast_views::view_ops(v@)) == spec_ops_tail(
            s@,
            p as nat,
            crate::ast_views::view_ops(ops@),
        ),
        r matches Step::Hit(n, _) ==> p <= n <= s@.len(),
    decreases s@.len() - p, 8int,
{
    proof {
        vstd::slice::axiom_spec_len(s);
    }
    let c = skip_ws(s, p);
    if c < s.len() && s[c] == 44 {
        let q = skip_ws(s, c + 1);
        match operator(s, q) {
            Step::Fail(pp) => Step::Fail(pp),
            Step::Miss(_) => close_ops(s, p, ops),
            Step::Hit(k1, op) => {
                let mut ops = ops;
                let ghost prev = crate::ast_views::view_ops(ops@);
                ops.push(op);
                proof {
                    assert(crate::ast_views::view_ops(ops@) =~= prev.push(
                        crate::ast_views::view_op(op),
                    ));
                }
                ops_tail(s, k1, ops)
            },
        }
    } else {
        close_ops(s, p, ops)
    }
}

fn close_ops(s: &[u8], p: usize, ops: Vec<Operator>) -> (r: Step<Vec<Operator>>)
    requires
        p <= s@.len(),
    ensures
        step_view(r, |v: Vec<Operator>| crate::ast_views::view_ops(v@)) == spec_close_ops(
            s@,
            p as nat,
            crate::ast_views::view_ops(ops@),
        ),
        r matches Step::Hit(n, _) ==> p <= n <= s@.len(),
{
    let q = skip_ws(s, p);
    if q < s.len() && s[q] == 125 {
        Step::Hit(skip_ws(s, q + 1), ops)
    } else {
        Step::Miss(q)
    }
}

/// A comparison operator's committed value argument (see `spec_value_arg`).
#[verifier::rlimit(60)]
fn value_arg(s: &[u8], i: usize, name: &[u8]) -> (r: Step<Value>)
    requires
        i <= s@.len(),
    ensures
        step_view(r, |v: Value| view_value(v)) == spec_value_arg(s@, i as nat, name@),
        r matches Step::Hit(n, _) ==> i <= n <= s@.len(),
    decreases s@.len() - i, 2int,
{
    proof {
        reveal(spec_value_arg);
    }
    match operator_name(s, i, name) {
        Step::Miss(p) => Step::Miss(p),
        Step::Fail(p) => Step::Fail(p),
        Step::Hit(k, _) => {
            let q = skip_ws(s, k);
            match value(s, q) {
                Step::Hit(n, v) => Step::Hit(skip_ws(s, n), v),
                _ => Step::Fail(q),
            }
        },
    }
}

/// One predicate operator (see `spec_operator`).
#[verifier::rlimit(60)]
pub fn operator(s: &[u8], i: usize) -> (r: Step<Operator>)
    requires
        i <= s@.len(),
    ensures
        step_view(r, |o: Operator| crate::ast_views::view_op(o)) == spec_operator(s@, i as nat),
        r matches Step::Hit(n, _) ==> i <= n <= s@.len(),
    decreases s@.len() - i, 6int,
{
    proof {
        reveal(spec_operator);
    }
    match field_operator(s, i) {
        Step::Hit(n, op) => Step::Hit(n, op),
        Step::Fail(p) => Step::Fail(p),
        Step::Miss(_) => operator_cmp(s, i),
    }
}

/// The comparison alternatives (see `spec_operator_cmp`).
#[verifier::rlimit(60)]
fn operator_cmp(s: &[u8], i: usize) -> (r: Step<Operator>)
    requires
        i <= s@.len(),
    ensures
        step_view(r, |o: Operator| crate::ast_views::view_op(o)) == spec_operator_cmp(
            s@,
            i as nat,
        ),
        r matches Step::Hit(n, _) ==> i <= n <= s@.len(),
    decreases s@.len() - i, 5int,
{
    proof {
        reveal(spec_operator_cmp);
    }
    let gt_name: [u8; 3] = [36, 103, 116];
    let gte_name: [u8; 4] = [36, 103, 116, 101];
    let lt_name: [u8; 3] = [36, 108, 116];
    let lte_name: [u8; 4] = [36, 108, 116, 101];
    proof {
        assert(gt_name@ =~= spec_gt_name());
        assert(gte_name@ =~= spec_gte_name());
        assert(lt_name@ =~= spec_lt_name());
        assert(lte_name@ =~= spec_lte_name());
    }
    match value_arg(s, i, gt_name.as_slice()) {
        Step::Hit(n, v) => {
            return Step::Hit(n, Operator::Gt(crate::ast::GtOperator(v)));
        },
        Step::Fail(p) => {
            return Step::Fail(p);
        },
        Step::Miss(_) => {},
    }
    match value_arg(s, i, gte_name.as_slice()) {
        Step::Hit(n, v) => {
            return Step::Hit(n, Operator::Gte(crate::ast::GteOperator(v)));
        },
        Step::Fail(p) => {
            return Step::Fail(p);
        },
        Step::Miss(_) => {},
    }
    match value_arg(s, i, lt_name.as_slice()) {
        Step::Hit(n, v) => {
            return Step::Hit(n, Operator::Lt(crate::ast::LtOperator(v)));
        },
        Step::Fail(p) => {
            return Step::Fail(p);
        },
        Step::Miss(_) => {},
    }
    match value_arg(s, i, lte_name.as_slice()) {
        Step::Hit(n, v) => Step::Hit(n, Operator::Lte(crate::ast::LteOperator(v))),
        Step::Fail(p) => Step::Fail(p),
        Step::Miss(_) => operator_eqs(s, i),
    }
}

/// The equality-style alternatives (see `spec_operator_eqs`).
#[verifier::rlimit(60)]
fn operator_eqs(s: &[u8], i: usize) -> (r: Step<Operator>)
    requires
        i <= s@.len(),
    ensures
        step_view(r, |o: Operator| crate::ast_views::view_op(o)) == spec_operator_eqs(
            s@,
            i as nat,
        ),
        r matches Step::Hit(n, _) ==> i <= n <= s@.len(),
    decreases s@.len() - i, 4int,
{
    proof {
        reveal(spec_operator_eqs);
    }
    let eq_name: [u8; 3] = [36, 101, 113];
    let ne_name: [u8; 3] = [36, 110, 101];
    proof {
        assert(eq_name@ =~= spec_eq_name());
        assert(ne_name@ =~= spec_ne_name());
    }
    match between_operator(s, i) {
        Step::Hit(n, op) => {
            return Step::Hit(n, op);
        },
        Step::Fail(p) => {
            return Step::Fail(p);
        },
        Step::Miss(_) => {},
    }
    match value_arg(s, i, eq_name.as_slice()) {
        Step::Hit(n, v) => {
            return Step::Hit(n, Operator::Eq(crate::ast::EqOperator(v)));
        },
        Step::Fail(p) => {
            return Step::Fail(p);
        },
        Step::Miss(_) => {},
    }
    match value_arg(s, i, ne_name.as_slice()) {
        Step::Hit(n, v) => Step::Hit(n, Operator::Ne(crate::ast::NeOperator(v))),
        Step::Fail(p) => Step::Fail(p),
        Step::Miss(_) => operator_logic(s, i),
    }
}

/// The list- and predicate-valued alternatives (see `spec_operator_logic`).
#[verifier::rlimit(60)]
fn operator_logic(s: &[u8], i: usize) -> (r: Step<Operator>)
    requires
        i <= s@.len(),
    ensures
        step_view(r, |o: Operator| crate::ast_views::view_op(o)) == spec_operator_logic(
            s@,
            i as nat,
        ),
        r matches Step::Hit(n, _) ==> i <= n <= s@.len(),
    decreases s@.len() - i, 3int,
{
    proof {
        reveal(spec_operator_logic);
    }
    match in_operator(s, i) {
        Step::Hit(n, op) => {
            return Step::Hit(n, op);
        },
        Step::Fail(p) => {
            return Step::Fail(p);
        },
        Step::Miss(_) => {},
    }
    match not_operator(s, i) {
        Step::Hit(n, op) => {
            return Step::Hit(n, op);
        },
        Step::Fail(p) => {
            return Step::Fail(p);
        },
        Step::Miss(_) => {},
    }
    match and_operator(s, i) {
        Step::Hit(n, op) => {
            return Step::Hit(n, op);
        },
        Step::Fail(p) => {
            return Step::Fail(p);
        },
        Step::Miss(_) => {},
    }
    match or_operator(s, i) {
        Step::Hit(n, op) => Step::Hit(n, op),
        Step::Fail(p) => Step::Fail(p),
        Step::Miss(p) => Step::Miss(p),
    }
}

/// A field constraint (see `spec_field_operator`).
#[verifier::rlimit(60)]
pub fn field_operator(s: &[u8], i: usize) -> (r: Step<Operator>)
    requires
        i <= s@.len(),
    ensures
        step_view(r, |o: Operator| crate::ast_views::view_op(o)) == spec_field_operator(
            s@,
            i as nat,
        ),
        r matches Step::Hit(n, _) ==> i <= n <= s@.len(),
    decreases s@.len() - i, 5int,
{
    proof {
        reveal(spec_field_operator);
    }
    let j = skip_ws(s, i);
    match field(s, j) {
        Step::Miss(p) => Step::Miss(p),
        Step::Fail(p) => Step::Fail(p),
        Step::Hit(n, path) => {
            proof {
                vstd::slice::axiom_spec_len(s);
            }
            let k = skip_ws(s, n);
            if k < s.len() && s[k] == 58 {
                let q = skip_ws(s, k + 1);
                match predicate(s, q) {
                    Step::Miss(p) => Step::Miss(p),
                    Step::Fail(p) => Step::Fail(p),
                    Step::Hit(n2, pred) => Step::Hit(
                        skip_ws(s, n2),
                        Operator::Field(
                            crate::ast::FieldOperator { field: path, predicate: pred },
                        ),
                    ),
                }
            } else {
                Step::Miss(k)
            }
        },
    }
}

/// `$between` (see `spec_between_operator`).
#[verifier::rlimit(60)]
fn between_operator(s: &[u8], i: usize) -> (r: Step<Operator>)
    requires
        i <= s@.len(),
    ensures
        step_view(r, |o: Operator| crate::ast_views::view_op(o)) == spec_between_operator(
            s@,
            i as nat,
        ),
        r matches Step::Hit(n, _) ==> i <= n <= s@.len(),
    decreases s@.len() - i, 2int,
{
    proof {
        reveal(spec_between_operator);
    }
    let bname: [u8; 8] = [36, 98, 101, 116, 119, 101, 101, 110];
    proof {
        assert(bname@ =~= spec_between_name());
        vstd::slice::axiom_spec_len(s);
    }
    match operator_name(s, i, bname.as_slice()) {
        Step::Miss(p) => Step::Miss(p),
        Step::Fail(p) => Step::Fail(p),
        Step::Hit(k, _) => {
            let w1 = skip_ws(s, k);
            if w1 < s.len() && s[w1] == 91 {
                let w2 = skip_ws(s, w1 + 1);
                match value(s, w2) {
                    Step::Hit(n1, v1) => {
                        let c = skip_ws(s, n1);
                        if c < s.len() && s[c] == 44 {
                            let w3 = skip_ws(s, c + 1);
                            match value(s, w3) {
                                Step::Hit(n2, v2) => {
                                    let cb = skip_ws(s, n2);
                                    if cb < s.len() && s[cb] == 93 {
                                        Step::Hit(
                                            skip_ws(s, skip_ws(s, cb + 1)),
                                            Operator::Between(
                                                crate::ast::BetweenOperator(v1, v2),
                                            ),
                                        )
                                    } else {
                                        Step::Fail(cb)
                                    }
                                },
                                _ => Step::Fail(w3),
                            }
                        } else {
                            Step::Fail(c)
                        }
                    },
                    _ => Step::Fail(w2),
                }
            } else {
                Step::Fail(w1)
            }
        },
    }
}

/// `$in` (see `spec_in_operator`).
#[verifier::rlimit(60)]
fn in_operator(s: &[u8], i: usize) -> (r: Step<Operator>)
    requires
        i <= s@.len(),
    ensures
        step_view(r, |o: Operator| crate::ast_views::view_op(o)) == spec_in_operator(
            s@,
            i as nat,
        ),
        r matches Step::Hit(n, _) ==> i <= n <= s@.len(),
    decreases s@.len() - i, 2int,
{
    proof {
        reveal(spec_in_operator);
    }
    let iname: [u8; 3] = [36, 105, 110];
    proof {
        assert(iname@ =~= spec_in_name());
    }
    match operator_name(s, i, iname.as_slice()) {
        Step::Miss(p) => Step::Miss(p),
        Step::Fail(p) => Step::Fail(p),
        Step::Hit(k, _) => {
            let q = skip_ws(s, k);
            match array(s, q) {
                Step::Hit(n, items) => Step::Hit(
                    skip_ws(s, n),
                    Operator::In(crate::ast::InOperator(items)),
                ),
                _ => Step::Fail(q),
            }
        },
    }
}

/// `$not` (see `spec_not_operator`).
#[verifier::rlimit(60)]
fn not_operator(s: &[u8], i: usize) -> (r: Step<Operator>)
    requires
        i <= s@.len(),
    ensures
        step_view(r, |o: Operator| crate::ast_views::view_op(o)) == spec_not_operator(
            s@,
            i as nat,
        ),
        r matches Step::Hit(n, _) ==> i <= n <= s@.len(),
    decreases s@.len() - i, 2int,
{
    proof {
        reveal(spec_not_operator);
    }
    let nname: [u8; 4] = [36, 110, 111, 116];
    proof {
        assert(nname@ =~= spec_not_name());
    }
    let r0 = operator_name(s, i, nname.as_slice());
    proof {
        assert(r0 == spec_operator_name(s@, i as nat, spec_not_name()));
    }
    match r0 {
        Step::Miss(p) => Step::Miss(p),
        Step::Fail(p) => Step::Fail(p),
        Step::Hit(k, _) => {
            let q = skip_ws(s, k);
            proof {
                assert(i < q <= s@.len());
                assert(spec_not_operator(s@, i as nat) == (match spec_predicate(s@, q as nat) {
                    Step::Hit(n, pred) => Step::Hit(
                        spec_ws(s@, n as nat) as usize,
                        OpV::Not(pred),
                    ),
                    _ => Step::Fail(q),
                }));
            }
            let rp = predicate(s, q);
            proof {
                assert(step_view(rp, |p: Predicate| crate::ast_views::view_pred(p))
                    == spec_predicate(s@, q as nat));
            }
            match rp {
                Step::Hit(n, pred) => {
                    proof {
                        assert(spec_predicate(s@, q as nat) == Step::Hit(
                            n,
                            crate::ast_views::view_pred(pred),
                        ));
                    }
                    let res = Step::Hit(
                        skip_ws(s, n),
                        Operator::Not(crate::ast::NotOperator(pred)),
                    );
                    proof {
                        assert(crate::ast_views::view_op(Operator::Not(crate::ast::NotOperator(pred)))
                            == OpV::Not(crate::ast_views::view_pred(pred)));
                        assert(step_view(res, |o: Operator| crate::ast_views::view_op(o))
                            == spec_not_operator(s@, i as nat));
                    }
                    res
                },
                _ => Step::Fail(q),
            }
        },
    }
}

/// `$and` (see `spec_and_operator`).
#[verifier::rlimit(60)]
fn and_operator(s: &[u8], i: usize) -> (r: Step<Operator>)
    requires
        i <= s@.len(),
    ensures
        step_view(r, |o: Operator| crate::ast_views::view_op(o)) == spec_and_operator(
            s@,
            i as nat,
        ),
        r matches Step::Hit(n, _) ==> i <= n <= s@.len(),
    decreases s@.len() - i, 2int,
{
    proof {
        reveal(spec_and_operator);
    }
    let aname: [u8; 4] = [36, 97, 110, 100];
    proof {
        assert(aname@ =~= spec_and_name());
    }
    match operator_name(s, i, aname.as_slice()) {
        Step::Miss(p) => Step::Miss(p),
        Step::Fail(p) => Step::Fail(p),
        Step::Hit(k, _) => {
            let q = skip_ws(s, k);
            match pred_array(s, q) {
                Step::Hit(n, preds) => Step::Hit(
                    skip_ws(s, n),
                    Operator::And(crate::ast::AndOperator(preds)),
                ),
                _ => Step::Fail(q),
            }
        },
    }
}

/// `$or` (see `spec_or_operator`).
#[verifier::rlimit(60)]
fn or_operator(s: &[u8], i: usize) -> (r: Step<Operator>)
    requires
        i <= s@.len(),
    ensures
        step_view(r, |o: Operator| crate::ast_views::view_op(o)) == spec_or_operator(
            s@,
            i as nat,
        ),
        r matches Step::Hit(n, _) ==> i <= n <= s@.len(),
    decreases s@.len() - i, 2int,
{
    proof {
        reveal(spec_or_operator);
    }
    let oname: [u8; 3] = [36, 111, 114];
    proof {
        assert(oname@ =~= spec_or_name());
    }
    match operator_name(s, i, oname.as_slice()) {
        Step::Miss(p) => Step::Miss(p),
        Step::Fail(p) => Step::Fail(p),
        Step::Hit(k, _) => {
            let q = skip_ws(s, k);
            match pred_array(s, q) {
                Step::Hit(n, preds) => Step::Hit(
                    skip_ws(s, n),
                    Operator::Or(crate::ast::OrOperator(preds)),
                ),
                _ => Step::Fail(q),
            }
        },
    }
}

/// A bracketed predicate list (see `spec_pred_array`).
#[verifier::rlimit(100)]
#[verifier::spinoff_prover]
fn pred_array(s: &[u8], i: usize) -> (r: Step<Vec<Predicate>>)
    requires
        i <= s@.len(),
    ensures
        step_view(r, |v: Vec<Predicate>| crate::ast_views::view_preds(v@)) == spec_pred_array(
            s@,
            i as nat,
        ),
        r matches Step::Hit(n, _) ==> i <= n <= s@.len(),
    decreases s@.len() - i, 1int,
{
    proof {
        reveal(spec_pred_array);
    }
    proof {
        vstd::slice::axiom_spec_len(s);
    }
    let j = skip_ws(s, i);
    if j < s.len() && s[j] == 91 {
        let q0 = skip_ws(s, j + 1);
        let mut out: Vec<Predicate> = Vec::new();
        match predicate(s, q0) {
            Step::Fail(p) => Step::Fail(p),
            Step::Miss(_) => {
                proof {
                    assert(crate::ast_views::view_preds(out@) =~= Seq::<PredV>::empty());
                }
                close_preds(s, q0, out)
            },
            Step::Hit(k0, p0) => {
                let k = skip_ws(s, k0);
                if !(q0 < k && k <= s.len()) {
                    return Step::Fail(k);
                }
                out.push(p0);
                proof {
                    assert(out@.drop_last() =~= Seq::<Predicate>::empty());
                    assert(crate::ast_views::view_preds(out@) =~= seq![
                        crate::ast_views::view_pred(p0),
                    ]);
                }
                preds_tail(s, k, out)
            },
        }
    } else {
        Step::Miss(i)
    }
}

/// The rest of a predicate list and its committed closing bracket (see
/// `spec_preds_tail`).
#[verifier::rlimit(60)]
fn preds_tail(s: &[u8], p: usize, preds: Vec<Predicate>) -> (r: Step<Vec<Predicate>>)
    requires
        p <= s@.len(),
    ensures
        step_view(r, |v: Vec<Predicate>| crate::ast_views::view_preds(v@)) == spec_preds_tail(
            s@,
            p as nat,
            crate::ast_views::view_preds(preds@),
        ),
        r matches Step::Hit(n, _) ==> p <= n <= s@.len(),
    decreases s@.len() - p, 2int,
{
    proof {
        vstd::slice::axiom_spec_len(s);
    }
    let c = skip_ws(s, p);
    if c < s.len() && s[c] == 44 {
        let q = skip_ws(s, c + 1);
        match predicate(s, q) {
            Step::Fail(pp) => Step::Fail(pp),
            Step::Miss(_) => close_preds(s, p, preds),
            Step::Hit(k1, pr) => {
                let k = skip_ws(s, k1);
                let mut preds = preds;
                let ghost prev = crate::ast_views::view_preds(preds@);
                preds.push(pr);
                proof {
                    assert(crate::ast_views::view_preds(preds@) =~= prev.push(
                        crate::ast_views::view_pred(pr),
                    ));
                }
                preds_tail(s, k, preds)
            },
        }
    } else {
        close_preds(s, p, preds)
    }
}

fn close_preds(s: &[u8], p: usize, preds: Vec<Predicate>) -> (r: Step<Vec<Predicate>>)
    requires
        p <= s@.len(),
    ensures
        step_view(r, |v: Vec<Predicate>| crate::ast_views::view_preds(v@)) == spec_close_preds(
            s@,
            p as nat,
            crate::ast_views::view_preds(preds@),
        ),
        r matches Step::Hit(n, _) ==> p <= n <= s@.len(),
{
    let q = skip_ws(s, p);
    if q < s.len() && s[q] == 93 {
        Step::Hit(skip_ws(s, q + 1), preds)
    } else {
        Step::Fail(q)
    }
}






} // verus!
