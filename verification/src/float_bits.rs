//! IEEE-754 double-precision semantics over raw bit patterns.
//!
//! The value model stores a floating-point number as its 64-bit pattern and
//! never as a machine float. Equality, ordering and the conversion from a
//! 64-bit integer are defined here in pure integer arithmetic, following the
//! IEEE-754 binary64 layout: 1 sign bit, 11 exponent bits, 52 fraction bits.

use vstd::prelude::*;
use vstd::arithmetic::power2::*;

verus! {

/// 2^63: the sign bit of a binary64 pattern.
pub const F64_SIGN: u64 = 0x8000_0000_0000_0000;

/// 2^52: one unit of the exponent field of a binary64 pattern.
pub const F64_EXP_UNIT: u64 = 0x10_0000_0000_0000;

/// The biased exponent field of the pattern `b`.
pub open spec fn spec_exp_field(b: u64) -> int {
    (b as int / 0x10_0000_0000_0000) % 2048
}

/// The fraction field of the pattern `b`.
pub open spec fn spec_frac_field(b: u64) -> int {
    b as int % 0x10_0000_0000_0000
}

/// `b` encodes a NaN: exponent field all ones, fraction nonzero.
pub open spec fn spec_f64_is_nan(b: u64) -> bool {
    spec_exp_field(b) == 2047 && spec_frac_field(b) != 0
}

/// `b` encodes positive or negative zero.
pub open spec fn spec_f64_is_zero(b: u64) -> bool {
    b as int % 0x8000_0000_0000_0000 == 0
}

/// A key that orders non-NaN patterns as the encoded reals are ordered:
/// negative values are mapped below positive ones and reversed.
pub open spec fn spec_order_key(b: u64) -> int {
    if b >= 0x8000_0000_0000_0000 {
        0xffff_ffff_ffff_ffff - b
    } else {
        b + 0x8000_0000_0000_0000
    }
}

/// IEEE equality of two patterns: never true for NaN, and the two zeros
/// are equal to each other.
pub open spec fn spec_f64_eq(a: u64, b: u64) -> bool {
    &&& !spec_f64_is_nan(a)
    &&& !spec_f64_is_nan(b)
    &&& (a == b || (spec_f64_is_zero(a) && spec_f64_is_zero(b)))
}

/// IEEE partial comparison of two patterns: `None` when either is NaN.
pub open spec fn spec_f64_cmp(a: u64, b: u64) -> Option<core::cmp::Ordering> {
    if spec_f64_is_nan(a) || spec_f64_is_nan(b) {
        None
    } else if spec_f64_is_zero(a) && spec_f64_is_zero(b) {
        Some(core::cmp::Ordering::Equal)
    } else if spec_order_key(a) < spec_order_key(b) {
        Some(core::cmp::Ordering::Less)
    } else if spec_order_key(a) == spec_order_key(b) {
        Some(core::cmp::Ordering::Equal)
    } else {
        Some(core::cmp::Ordering::Greater)
    }
}

pub fn f64_is_nan(b: u64) -> (r: bool)
    ensures
        r == spec_f64_is_nan(b),
{
    let exp: u64 = (b / F64_EXP_UNIT) % 2048;
    let frac: u64 = b % F64_EXP_UNIT;
    exp == 2047 && frac != 0
}

pub fn f64_is_zero(b: u64) -> (r: bool)
    ensures
        r == spec_f64_is_zero(b),
{
    b % F64_SIGN == 0
}

pub fn f64_eq(a: u64, b: u64) -> (r: bool)
    ensures
        r == spec_f64_eq(a, b),
{
    if f64_is_nan(a) || f64_is_nan(b) {
        false
    } else if a == b {
        true
    } else {
        f64_is_zero(a) && f64_is_zero(b)
    }
}

fn order_key(b: u64) -> (r: u64)
    ensures
        r == spec_order_key(b),
{
    if b >= F64_SIGN {
        0xffff_ffff_ffff_ffff - b
    } else {
        b + F64_SIGN
    }
}

pub fn f64_cmp(a: u64, b: u64) -> (r: Option<core::cmp::Ordering>)
    ensures
        r == spec_f64_cmp(a, b),
{
    if f64_is_nan(a) || f64_is_nan(b) {
        None
    } else if f64_is_zero(a) && f64_is_zero(b) {
        Some(core::cmp::Ordering::Equal)
    } else {
        let ka = order_key(a);
        let kb = order_key(b);
        if ka < kb {
            Some(core::cmp::Ordering::Less)
        } else if ka == kb {
            Some(core::cmp::Ordering::Equal)
        } else {
            Some(core::cmp::Ordering::Greater)
        }
    }
}

/// The number of binary digits of `m` (zero for zero).
pub open spec fn spec_bit_len(m: u64) -> nat
    decreases m,
{
    if m == 0 {
        0
    } else {
        1 + spec_bit_len(m / 2)
    }
}

pub proof fn lemma_bit_len_bounds(m: u64)
    ensures
        spec_bit_len(m) <= 64,
        m > 0 ==> pow2((spec_bit_len(m) - 1) as nat) <= m < pow2(spec_bit_len(m)),
    decreases m,
{
    if m == 0 {
    } else {
        lemma_bit_len_bounds(m / 2);
        let l = spec_bit_len(m / 2);
        lemma_pow2_unfold((l + 1) as nat);
        if m / 2 == 0 {
            lemma2_to64();
        } else {
            lemma_pow2_unfold(l);
        }
        if spec_bit_len(m / 2) == 64 {
            lemma2_to64();
            assert(pow2(63) <= m / 2) by {
                lemma2_to64_rest();
            }
            assert(false);
        }
    }
}

pub fn bit_len(m: u64) -> (r: u64)
    ensures
        r == spec_bit_len(m),
    decreases m,
{
    proof {
        lemma_bit_len_bounds(m);
    }
    if m == 0 {
        0
    } else {
        1 + bit_len(m / 2)
    }
}

/// 2^k as a 64-bit integer, for k below 64.
pub fn pow2_u64(k: u64) -> (r: u64)
    requires
        k < 64,
    ensures
        r == pow2(k as nat),
    decreases k,
{
    proof {
        lemma2_to64();
        lemma2_to64_rest();
        if k > 0 {
            lemma_pow2_unfold(k as nat);
            lemma_pow2_strictly_increases((k - 1) as nat, 63);
        }
    }
    if k == 0 {
        1
    } else {
        2 * pow2_u64(k - 1)
    }
}

/// The magnitude of `n` as an unsigned integer.
pub open spec fn spec_abs_i64(n: i64) -> u64 {
    if n < 0 {
        (0 - n as int) as u64
    } else {
        n as u64
    }
}

pub fn abs_i64(n: i64) -> (r: u64)
    ensures
        r == spec_abs_i64(n),
{
    if n >= 0 {
        n as u64
    } else {
        let m: i64 = -(n + 1);
        (m as u64) + 1
    }
}

/// The binary64 pattern nearest to the integer `n`, rounding the 64-bit
/// magnitude to 53 significant bits with ties to even, as a conversion from
/// `i64` to double precision does.
pub open spec fn spec_i64_to_bits(n: i64) -> u64 {
    if n == 0 {
        0
    } else {
        let s: int = if n < 0 {
            0x8000_0000_0000_0000
        } else {
            0
        };
        let m = spec_abs_i64(n) as int;
        let p = spec_bit_len(spec_abs_i64(n)) - 1;
        if p <= 52 {
            (s + (1022 + p) * 0x10_0000_0000_0000 + m * pow2((52 - p) as nat)) as u64
        } else {
            let shift = (p - 52) as nat;
            let q = m / pow2(shift) as int;
            let rem = m % pow2(shift) as int;
            let half = pow2((shift - 1) as nat) as int;
            let q2: int = if rem > half || (rem == half && q % 2 == 1) {
                q + 1
            } else {
                q
            };
            if q2 == 0x20_0000_0000_0000 {
                (s + (1023 + p) * 0x10_0000_0000_0000 + 0x10_0000_0000_0000) as u64
            } else {
                (s + (1022 + p) * 0x10_0000_0000_0000 + q2) as u64
            }
        }
    }
}

pub fn i64_to_bits(n: i64) -> (r: u64)
    ensures
        r == spec_i64_to_bits(n),
{
    if n == 0 {
        return 0;
    }
    let s: u64 = if n < 0 {
        F64_SIGN
    } else {
        0
    };
    let m: u64 = abs_i64(n);
    proof {
        lemma_bit_len_bounds(m);
    }
    let p: u64 = bit_len(m) - 1;
    if p <= 52 {
        let scale: u64 = pow2_u64(52 - p);
        proof {
            lemma_pow2_adds((52 - p) as nat, (p + 1) as nat);
            lemma2_to64_rest();
            assert(m * scale < pow2(53)) by {
                assert(m < pow2((p + 1) as nat));
                vstd::arithmetic::mul::lemma_mul_strict_inequality(
                    m as int,
                    pow2((p + 1) as nat) as int,
                    scale as int,
                );
            }
        }
        s + (1022 + p) * F64_EXP_UNIT + m * scale
    } else {
        let div: u64 = pow2_u64(p - 52);
        let half: u64 = pow2_u64(p - 52 - 1);
        proof {
            lemma_pow2_unfold((p - 52) as nat);
            lemma_pow2_pos((p - 52 - 1) as nat);
            lemma_pow2_adds((p - 52) as nat, 52);
            lemma2_to64_rest();
            assert(m / div < pow2(53)) by {
                assert(m < pow2((p + 1) as nat));
                lemma_pow2_adds((p - 52) as nat, 53);
                vstd::arithmetic::div_mod::lemma_multiply_divide_lt(
                    m as int,
                    pow2((p - 52) as nat) as int,
                    pow2(53) as int,
                );
            }
        }
        let q: u64 = m / div;
        let rem: u64 = m % div;
        let q2: u64 = if rem > half || (rem == half && q % 2 == 1) {
            q + 1
        } else {
            q
        };
        if q2 == 0x20_0000_0000_0000 {
            s + (1023 + p) * F64_EXP_UNIT + F64_EXP_UNIT
        } else {
            s + (1022 + p) * F64_EXP_UNIT + q2
        }
    }
}


/// Normalization of a positive significand into [2^63, 2^64), halving the
/// binary exponent step by step.
pub open spec fn spec_norm(sig: int, be: int) -> (int, int)
    decreases 0x1_0000_0000_0000_0000 - sig,
{
    if sig <= 0 {
        (0int, be)
    } else if sig >= 0x8000_0000_0000_0000 {
        (sig, be)
    } else {
        spec_norm(sig * 2, be - 1)
    }
}

fn norm64(sig0: u64, be0: i64) -> (r: (u64, i64))
    requires
        sig0 > 0,
        -10000 <= be0 <= 10000,
    ensures
        (r.0 as int, r.1 as int) == spec_norm(sig0 as int, be0 as int),
        0x8000_0000_0000_0000 <= r.0,
        be0 - 64 <= r.1 <= be0,
{
    let mut sig: u64 = sig0;
    let mut be: i64 = be0;
    proof {
        vstd::arithmetic::power2::lemma2_to64();
    }
    while sig < 0x8000_0000_0000_0000
        invariant
            sig > 0,
            spec_norm(sig as int, be as int) == spec_norm(sig0 as int, be0 as int),
            be <= be0,
            0 <= be0 - be <= 63,
            pow2((be0 - be) as nat) <= sig,
            -10000 <= be0 <= 10000,
        decreases 0x1_0000_0000_0000_0000 - sig,
    {
        proof {
            lemma_pow2_unfold((be0 - be + 1) as nat);
            assert(pow2((be0 - be + 1) as nat) <= sig * 2);
            if be0 - be + 1 > 63 {
                lemma_pow2_strictly_increases(63, (be0 - be + 1) as nat);
                lemma2_to64_rest();
                assert(false);
            }
        }
        sig = sig * 2;
        be = be - 1;
    }
    (sig, be)
}

/// One upward decimal step: the value is multiplied by ten and the
/// significand renormalized, dropping the shifted-out bits.
pub open spec fn spec_mul10(sig: int, be: int) -> (int, int) {
    let sig10 = sig * 10;
    if sig10 < 0x8_0000_0000_0000_0000 {
        (sig10 / 8, be + 3)
    } else {
        (sig10 / 16, be + 4)
    }
}

/// One downward decimal step: the value is divided by ten with 64 extra
/// fraction bits, and the significand renormalized.
pub open spec fn spec_div10(sig: int, be: int) -> (int, int) {
    let sigq = (sig * 0x1_0000_0000_0000_0000) / 10;
    if sigq < 0x1000_0000_0000_0000_0000_0000_0000_0000 {
        (sigq / 0x1000_0000_0000_0000, be - 4)
    } else {
        (sigq / 0x2000_0000_0000_0000, be - 3)
    }
}

fn mul10_step(sig: u64, be: i64) -> (r: (u64, i64))
    requires
        0x8000_0000_0000_0000 <= sig,
        -10000 <= be <= 10000,
    ensures
        (r.0 as int, r.1 as int) == spec_mul10(sig as int, be as int),
        0x8000_0000_0000_0000 <= r.0,
        be + 3 <= r.1 <= be + 4,
{
    let sig10: u128 = (sig as u128) * 10;
    if sig10 < 0x8_0000_0000_0000_0000 {
        ((sig10 / 8) as u64, be + 3)
    } else {
        ((sig10 / 16) as u64, be + 4)
    }
}

fn div10_step(sig: u64, be: i64) -> (r: (u64, i64))
    requires
        0x8000_0000_0000_0000 <= sig,
        -10000 <= be <= 10000,
    ensures
        (r.0 as int, r.1 as int) == spec_div10(sig as int, be as int),
        0x8000_0000_0000_0000 <= r.0,
        be - 4 <= r.1 <= be - 3,
{
    let sigq: u128 = ((sig as u128) * 0x1_0000_0000_0000_0000) / 10;
    if sigq < 0x1000_0000_0000_0000_0000_0000_0000_0000 {
        ((sigq / 0x1000_0000_0000_0000) as u64, be - 4)
    } else {
        ((sigq / 0x2000_0000_0000_0000) as u64, be - 3)
    }
}

/// The significand scaled by the decimal exponent `e`, one step at a time.
pub open spec fn spec_scale(sig: int, be: int, e: int) -> (int, int)
    decreases (if e >= 0 {
        e
    } else {
        -e
    }),
{
    if e > 0 {
        let (s2, b2) = spec_mul10(sig, be);
        spec_scale(s2, b2, e - 1)
    } else if e < 0 {
        let (s2, b2) = spec_div10(sig, be);
        spec_scale(s2, b2, e + 1)
    } else {
        (sig, be)
    }
}

/// Rounds a normalized significand to 53 bits, ties to even, and packs the
/// binary64 pattern; overflow gives an infinity, underflow a zero.
pub open spec fn spec_pack(neg: bool, sig: int, be: int) -> u64 {
    let s: int = if neg {
        0x8000_0000_0000_0000
    } else {
        0
    };
    let q = sig / 0x800;
    let rem = sig % 0x800;
    let q2: int = if rem > 0x400 || (rem == 0x400 && q % 2 == 1) {
        q + 1
    } else {
        q
    };
    let (m, be2): (int, int) = if q2 == 0x20_0000_0000_0000 {
        (0x10_0000_0000_0000, be + 1)
    } else {
        (q2, be)
    };
    let biased = be2 + 1086;
    if biased >= 2047 {
        (s + 2047 * 0x10_0000_0000_0000) as u64
    } else if biased < 1 {
        s as u64
    } else {
        (s + (biased - 1) * 0x10_0000_0000_0000 + m) as u64
    }
}

fn pack_bits(neg: bool, sig: u64, be: i64) -> (r: u64)
    requires
        0x8000_0000_0000_0000 <= sig,
        -10000 <= be <= 10000,
    ensures
        r == spec_pack(neg, sig as int, be as int),
{
    let s: u64 = if neg {
        F64_SIGN
    } else {
        0
    };
    let q: u64 = sig / 0x800;
    let rem: u64 = sig % 0x800;
    let q2: u64 = if rem > 0x400 || (rem == 0x400 && q % 2 == 1) {
        q + 1
    } else {
        q
    };
    let (m, be2): (u64, i64) = if q2 == 0x20_0000_0000_0000 {
        (0x10_0000_0000_0000, be + 1)
    } else {
        (q2, be)
    };
    let biased: i64 = be2 + 1086;
    if biased >= 2047 {
        s + 2047 * F64_EXP_UNIT
    } else if biased < 1 {
        s
    } else {
        s + ((biased - 1) as u64) * F64_EXP_UNIT + m
    }
}

/// The binary64 pattern denoted by a decimal literal with sign `neg`,
/// significant digits `m` and decimal exponent `e10`. The intended value is
/// `m * 10^e10`; the conversion scales the 64-bit significand by ten one
/// decimal step at a time, each step truncating below the 64th bit, and then
/// rounds to 53 bits with ties to even. With at most 400 steps the
/// significand can drift below the exact value by at most a few units of its
/// 64th bit before the final rounding, so the result is within one unit in
/// the last place of the nearest double; a literal whose value needs no
/// scaling, or only steps that shift out zero bits, converts exactly.
pub open spec fn spec_decimal_to_bits(neg: bool, m: u64, e10: int) -> u64 {
    if m == 0 {
        if neg {
            0x8000_0000_0000_0000
        } else {
            0
        }
    } else if e10 > 400 {
        if neg {
            0xfff0_0000_0000_0000
        } else {
            0x7ff0_0000_0000_0000
        }
    } else if e10 < -400 {
        if neg {
            0x8000_0000_0000_0000
        } else {
            0
        }
    } else {
        let (s0, b0) = spec_norm(m as int, 0);
        let (s1, b1) = spec_scale(s0, b0, e10);
        spec_pack(neg, s1, b1)
    }
}

/// The decimal literal `neg`, `m`, `e10` as a binary64 pattern (see
/// `spec_decimal_to_bits` for the rounding this conversion performs).
pub fn decimal_to_bits(neg: bool, m: u64, e10: i64) -> (r: u64)
    ensures
        r == spec_decimal_to_bits(neg, m, e10 as int),
{
    if m == 0 {
        if neg {
            0x8000_0000_0000_0000
        } else {
            0
        }
    } else if e10 > 400 {
        if neg {
            0xfff0_0000_0000_0000
        } else {
            0x7ff0_0000_0000_0000
        }
    } else if e10 < -400 {
        if neg {
            0x8000_0000_0000_0000
        } else {
            0
        }
    } else {
        let (s0, b0) = norm64(m, 0);
        let ghost spec_pair = spec_scale(s0 as int, b0 as int, e10 as int);
        let mut sig: u64 = s0;
        let mut be: i64 = b0;
        let mut e: i64 = e10;
        while e != 0
            invariant
                spec_scale(sig as int, be as int, e as int) == spec_pair,
                0x8000_0000_0000_0000 <= sig,
                -400 <= e10 <= 400,
                e10 >= 0 ==> 0 <= e <= e10 && -70 + 3 * (e10 - e) <= be <= 70 + 4 * (e10 - e),
                e10 < 0 ==> e10 <= e <= 0 && -70 - 4 * (e - e10) <= be <= 70 - 3 * (e - e10),
            decreases (if e >= 0 {
                e as int
            } else {
                -(e as int)
            }),
        {
            if e > 0 {
                let (s2, b2) = mul10_step(sig, be);
                sig = s2;
                be = b2;
                e = e - 1;
            } else {
                let (s2, b2) = div10_step(sig, be);
                sig = s2;
                be = b2;
                e = e + 1;
            }
        }
        pack_bits(neg, sig, be)
    }
}

} // verus!
