//! Fixed-point exponential and logarithm kernels: values scale by 2^32.
//!
//! The exponential splits its argument into an integer part, served by a
//! small table, and a fractional part in [0, 1), served by a Horner
//! evaluation of the Taylor series.  The logarithm normalizes its
//! argument to [1, 2) by halving and uses the inverse hyperbolic tangent
//! series on the mantissa.

use vstd::prelude::*;
use vstd::arithmetic::div_mod::{
    lemma_div_is_ordered, lemma_div_is_ordered_by_denominator, lemma_div_multiples_vanish,
    lemma_multiply_divide_le,
};
use vstd::arithmetic::mul::{lemma_mul_inequality, lemma_mul_upper_bound};

verus! {

/// The fixed-point scale: one is 2^32.
pub const Q32: u64 = 0x1_0000_0000;

pub const EXP_NEG_13_Q32: u64 = 9708;

pub const EXP_NEG_12_Q32: u64 = 26389;

pub const EXP_NEG_11_Q32: u64 = 71733;

pub const EXP_NEG_10_Q32: u64 = 194991;

pub const EXP_NEG_9_Q32: u64 = 530041;

pub const EXP_NEG_8_Q32: u64 = 1440801;

pub const EXP_NEG_7_Q32: u64 = 3916503;

pub const EXP_NEG_6_Q32: u64 = 10646160;

pub const EXP_NEG_5_Q32: u64 = 28939262;

pub const EXP_NEG_4_Q32: u64 = 78665070;

pub const EXP_NEG_3_Q32: u64 = 213833830;

pub const EXP_NEG_2_Q32: u64 = 581260615;

pub const EXP_NEG_1_Q32: u64 = 1580030169;

pub const EXP_0_Q32: u64 = 4294967296;

pub const EXP_1_Q32: u64 = 11674931555;

pub const EXP_2_Q32: u64 = 31735754293;

pub const EXP_3_Q32: u64 = 86266724208;

/// The natural logarithm of two, scaled by 2^32.
pub const LN2_Q32: u64 = 2977044472;

/// The table value for exp of a whole number in [-13, 3].
pub open spec fn spec_expi_q32(i: int) -> int {
    if i == -13 {
        EXP_NEG_13_Q32 as int
    } else if i == -12 {
        EXP_NEG_12_Q32 as int
    } else if i == -11 {
        EXP_NEG_11_Q32 as int
    } else if i == -10 {
        EXP_NEG_10_Q32 as int
    } else if i == -9 {
        EXP_NEG_9_Q32 as int
    } else if i == -8 {
        EXP_NEG_8_Q32 as int
    } else if i == -7 {
        EXP_NEG_7_Q32 as int
    } else if i == -6 {
        EXP_NEG_6_Q32 as int
    } else if i == -5 {
        EXP_NEG_5_Q32 as int
    } else if i == -4 {
        EXP_NEG_4_Q32 as int
    } else if i == -3 {
        EXP_NEG_3_Q32 as int
    } else if i == -2 {
        EXP_NEG_2_Q32 as int
    } else if i == -1 {
        EXP_NEG_1_Q32 as int
    } else if i == 0 {
        EXP_0_Q32 as int
    } else if i == 1 {
        EXP_1_Q32 as int
    } else if i == 2 {
        EXP_2_Q32 as int
    } else if i == 3 {
        EXP_3_Q32 as int
    } else {
        0
    }
}

fn expi_q32(i: i64) -> (r: u64)
    requires
        -13 <= i <= 3,
    ensures
        r == spec_expi_q32(i as int),
        r <= EXP_3_Q32,
{
    if i == -13 {
        EXP_NEG_13_Q32
    } else if i == -12 {
        EXP_NEG_12_Q32
    } else if i == -11 {
        EXP_NEG_11_Q32
    } else if i == -10 {
        EXP_NEG_10_Q32
    } else if i == -9 {
        EXP_NEG_9_Q32
    } else if i == -8 {
        EXP_NEG_8_Q32
    } else if i == -7 {
        EXP_NEG_7_Q32
    } else if i == -6 {
        EXP_NEG_6_Q32
    } else if i == -5 {
        EXP_NEG_5_Q32
    } else if i == -4 {
        EXP_NEG_4_Q32
    } else if i == -3 {
        EXP_NEG_3_Q32
    } else if i == -2 {
        EXP_NEG_2_Q32
    } else if i == -1 {
        EXP_NEG_1_Q32
    } else if i == 0 {
        EXP_0_Q32
    } else if i == 1 {
        EXP_1_Q32
    } else if i == 2 {
        EXP_2_Q32
    } else {
        EXP_3_Q32
    }
}

/// The product of two fixed-point values, rescaled.
pub open spec fn spec_mul_q32(a: int, b: int) -> int {
    a * b / (Q32 as int)
}

fn mul_q32(a: u64, b: u64) -> (r: u64)
    requires
        a <= 0x40_0000_0000u64,
        b <= 0x40_0000_0000u64,
    ensures
        r == spec_mul_q32(a as int, b as int),
{
    proof {
        lemma_mul_upper_bound(a as int, 0x40_0000_0000, b as int, 0x40_0000_0000);
        lemma_div_is_ordered(
            a as int * b as int,
            0x40_0000_0000int * 0x40_0000_0000int,
            Q32 as int,
        );
    }
    let prod: u128 = (a as u128) * (b as u128);
    (prod / (Q32 as u128)) as u64
}

/// One Horner level of the Taylor series for exp on [0, 1): level
/// fifteen is the constant one, and each level below adds the next term.
pub open spec fn spec_exp_horner(f: int, k: int) -> int
    decreases 15 - k,
{
    if k >= 15 || k < 1 {
        Q32 as int
    } else {
        Q32 + spec_mul_q32(f, spec_exp_horner(f, k + 1)) / k
    }
}

/// exp of a fraction in [0, 1), in fixed point.
fn exp_frac_q32(f: u64) -> (r: u64)
    requires
        f <= Q32,
    ensures
        r == spec_exp_horner(f as int, 1),
        Q32 <= r <= 3 * Q32,
{
    let mut acc: u64 = Q32;
    let mut k: u64 = 15;
    while k > 1
        invariant
            1 <= k <= 15,
            f <= Q32,
            acc == spec_exp_horner(f as int, k as int),
            acc >= Q32,
            if k >= 2 {
                acc <= 2 * Q32
            } else {
                acc <= 3 * Q32
            },
        decreases k,
    {
        k = k - 1;
        let m = mul_q32(f, acc);
        proof {
            lemma_mul_inequality(f as int, Q32 as int, acc as int);
            lemma_div_is_ordered(f as int * acc as int, Q32 as int * acc as int, Q32 as int);
            lemma_div_multiples_vanish(acc as int, Q32 as int);
            if k >= 2 {
                lemma_div_is_ordered_by_denominator(m as int, 2, k as int);
                lemma_div_is_ordered(m as int, acc as int, 2);
            }
        }
        acc = Q32 + m / k;
    }
    acc
}

/// exp of a micro-scaled argument, in fixed point.  The argument is split
/// as a whole number in [-13, 3] plus a fraction in [0, 1).
pub open spec fn spec_exp_q32(y: int) -> int {
    if y >= 0 {
        let ip = y / 1_000_000;
        let fr = y % 1_000_000;
        spec_mul_q32(spec_expi_q32(ip), spec_exp_horner(fr * Q32 / 1_000_000, 1))
    } else {
        let mg = -y;
        let ipn = (mg + 999_999) / 1_000_000;
        let fr = ipn * 1_000_000 - mg;
        spec_mul_q32(spec_expi_q32(-ipn), spec_exp_horner(fr * Q32 / 1_000_000, 1))
    }
}

/// exp of `y` micro-units, scaled by 2^32.
pub fn exp_q32(y: i64) -> (r: u64)
    requires
        -12_600_000 <= y <= 3_500_000,
    ensures
        r == spec_exp_q32(y as int),
        r <= 300_000_000_000u64,
{
    if y >= 0 {
        let yu = y as u64;
        let ip = yu / 1_000_000;
        let fr = yu % 1_000_000;
        let f_q32 = fr * Q32 / 1_000_000;
        proof {
            lemma_mul_inequality(fr as int, 1_000_000, Q32 as int);
            lemma_multiply_divide_le(fr as int * Q32 as int, 1_000_000, Q32 as int);
        }
        let ef = exp_frac_q32(f_q32);
        let ei = expi_q32(ip as i64);
        let r = mul_q32(ei, ef);
        proof {
            lemma_mul_inequality(ef as int, 3 * Q32 as int, ei as int);
            lemma_multiply_divide_le(
                ei as int * ef as int,
                Q32 as int,
                3 * EXP_3_Q32 as int,
            );
        }
        r
    } else {
        let mg = (-y) as u64;
        let ipn = (mg + 999_999) / 1_000_000;
        proof {
            assert(ipn * 1_000_000 >= mg && ipn * 1_000_000 - mg <= 999_999 && 1 <= ipn
                <= 13) by {
                vstd::arithmetic::div_mod::lemma_fundamental_div_mod(
                    mg as int + 999_999,
                    1_000_000,
                );
            }
        }
        let fr = ipn * 1_000_000 - mg;
        let f_q32 = fr * Q32 / 1_000_000;
        proof {
            lemma_mul_inequality(fr as int, 1_000_000, Q32 as int);
            lemma_multiply_divide_le(fr as int * Q32 as int, 1_000_000, Q32 as int);
        }
        let ef = exp_frac_q32(f_q32);
        let ei = expi_q32(-(ipn as i64));
        let r = mul_q32(ei, ef);
        proof {
            lemma_mul_inequality(ef as int, 3 * Q32 as int, ei as int);
            lemma_multiply_divide_le(
                ei as int * ef as int,
                Q32 as int,
                3 * EXP_3_Q32 as int,
            );
        }
        r
    }
}

/// The mantissa left after repeatedly halving down into [1, 2).
pub open spec fn spec_ln_norm_m(x: int) -> int
    decreases x,
{
    if x < 2 * (Q32 as int) {
        x
    } else {
        spec_ln_norm_m(x / 2)
    }
}

/// How many halvings it takes to land in [1, 2).
pub open spec fn spec_ln_norm_k(x: int) -> int
    decreases x,
{
    if x < 2 * (Q32 as int) {
        0
    } else {
        1 + spec_ln_norm_k(x / 2)
    }
}

/// One Horner level of the series for atanh on [0, 1/2): level ten is
/// the last coefficient kept, one over twenty-one.
pub open spec fn spec_atanh_tail(z2: int, k: int) -> int
    decreases 10 - k,
{
    if k >= 10 || k < 1 {
        (Q32 as int) / 21
    } else {
        (Q32 as int) / (2 * k + 1) + spec_mul_q32(z2, spec_atanh_tail(z2, k + 1))
    }
}

/// The natural logarithm of a mantissa in [1, 2), in fixed point, via
/// ln m = 2 atanh((m - 1)/(m + 1)).
pub open spec fn spec_ln_mantissa_q32(m: int) -> int {
    let z = (m - Q32) * Q32 / (m + Q32);
    let z2 = spec_mul_q32(z, z);
    let h = Q32 + spec_mul_q32(z2, spec_atanh_tail(z2, 1));
    2 * spec_mul_q32(z, h)
}

/// ln(a / b) in micro-units, for integer a at least b at least one.
pub open spec fn spec_ln_ratio_micro(a: int, b: int) -> int {
    let x = a * Q32 / b;
    (spec_ln_norm_k(x) * LN2_Q32 + spec_ln_mantissa_q32(spec_ln_norm_m(x))) * 1_000_000 / (
    Q32 as int)
}

/// ln(a / b) in micro-units.
pub fn ln_ratio_micro(a: u64, b: u64) -> (r: u64)
    requires
        1 <= b <= a,
        a <= 100_000,
    ensures
        r == spec_ln_ratio_micro(a as int, b as int),
        r <= 70_000_000_000_000_000u64,
{
    let x = a * Q32 / b;
    proof {
        lemma_mul_inequality(b as int, a as int, Q32 as int);
        lemma_div_is_ordered(b as int * Q32 as int, a as int * Q32 as int, b as int);
        lemma_div_multiples_vanish(Q32 as int, b as int);
        lemma_div_is_ordered_by_denominator(a as int * Q32 as int, 1, b as int);
        lemma_mul_inequality(a as int, 100_000, Q32 as int);
    }
    let mut m = x;
    let mut k: u64 = 0;
    let mut scale: u64 = 1;
    while m >= 2 * Q32
        invariant
            m >= Q32,
            x <= 100_000 * Q32,
            spec_ln_norm_m(x as int) == spec_ln_norm_m(m as int),
            spec_ln_norm_k(x as int) == k + spec_ln_norm_k(m as int),
            scale as int * m as int <= x as int,
            scale >= 1,
            k <= scale,
        decreases m,
    {
        proof {
            assert(scale <= 50_000) by (nonlinear_arith)
                requires
                    scale as int * m as int <= x as int,
                    m >= 2 * 0x1_0000_0000u64,
                    x <= 100_000 * 0x1_0000_0000u64,
                    scale >= 1,
            ;
            assert(2 * scale as int * (m as int / 2) <= scale as int * m as int)
                by (nonlinear_arith);
        }
        m = m / 2;
        k = k + 1;
        scale = scale * 2;
    }
    let z = (m - Q32) * Q32 / (m + Q32);
    proof {
        lemma_div_is_ordered_by_denominator((m - Q32) as int * Q32 as int, 2 * Q32 as int, m
            as int + Q32 as int);
        lemma_mul_inequality((m - Q32) as int, Q32 as int, Q32 as int);
        lemma_div_is_ordered(
            (m - Q32) as int * Q32 as int,
            Q32 as int * Q32 as int,
            2 * Q32 as int,
        );
    }
    let z2 = mul_q32(z, z);
    proof {
        lemma_mul_upper_bound(z as int, (Q32 / 2) as int, z as int, (Q32 / 2) as int);
        lemma_div_is_ordered(
            z as int * z as int,
            (Q32 / 2) as int * (Q32 / 2) as int,
            Q32 as int,
        );
    }
    let mut t: u64 = Q32 / 21;
    let mut kk: u64 = 9;
    while kk >= 1
        invariant
            kk <= 9,
            z2 <= Q32 / 2,
            t == spec_atanh_tail(z2 as int, kk as int + 1),
            t <= Q32,
        decreases kk,
    {
        let mt = mul_q32(z2, t);
        proof {
            lemma_mul_inequality(z2 as int, (Q32 / 2) as int, t as int);
            lemma_div_is_ordered(
                z2 as int * t as int,
                (Q32 / 2) as int * t as int,
                Q32 as int,
            );
            lemma_mul_inequality(t as int, Q32 as int, (Q32 / 2) as int);
            lemma_div_is_ordered(
                (Q32 / 2) as int * t as int,
                (Q32 / 2) as int * Q32 as int,
                Q32 as int,
            );
            lemma_div_multiples_vanish((Q32 / 2) as int, Q32 as int);
            assert((Q32 / 2) as int * t as int == t as int * (Q32 / 2) as int);
            assert((Q32 / 2) as int * Q32 as int == Q32 as int * (Q32 / 2) as int);
            lemma_div_is_ordered_by_denominator(Q32 as int, 3, 2 * kk as int + 1);
        }
        t = Q32 / (2 * kk + 1) + mt;
        kk = kk - 1;
    }
    let zt = mul_q32(z2, t);
    proof {
        lemma_mul_inequality(z2 as int, Q32 as int, t as int);
        lemma_div_is_ordered(z2 as int * t as int, Q32 as int * t as int, Q32 as int);
        lemma_div_multiples_vanish(t as int, Q32 as int);
    }
    let h = Q32 + zt;
    let zh = mul_q32(z, h);
    proof {
        lemma_mul_inequality(z as int, (Q32 / 2) as int, h as int);
        lemma_div_is_ordered(
            z as int * h as int,
            (Q32 / 2) as int * h as int,
            Q32 as int,
        );
        lemma_mul_inequality(h as int, 2 * Q32 as int, (Q32 / 2) as int);
        lemma_div_is_ordered(
            (Q32 / 2) as int * h as int,
            (Q32 / 2) as int * (2 * Q32 as int),
            Q32 as int,
        );
        assert(((Q32 / 2) as int * (2 * Q32 as int)) / (Q32 as int) == Q32 as int) by {
            assert((Q32 / 2) as int * (2 * Q32 as int) == Q32 as int * Q32 as int);
            lemma_div_multiples_vanish(Q32 as int, Q32 as int);
        }
        assert((Q32 / 2) as int * h as int == h as int * (Q32 / 2) as int);
    }
    let ln_m = 2 * zh;
    proof {
        assert(scale <= 100_000) by (nonlinear_arith)
            requires
                scale as int * m as int <= x as int,
                m >= 0x1_0000_0000u64,
                x <= 100_000 * 0x1_0000_0000u64,
                scale >= 1,
        ;
        lemma_mul_inequality(k as int, 100_000, LN2_Q32 as int);
    }
    let total = k * LN2_Q32 + ln_m;
    proof {
        lemma_mul_inequality(total as int, 300_000_000_000_000, 1_000_000);
        lemma_div_is_ordered(
            total as int * 1_000_000,
            300_000_000_000_000int * 1_000_000,
            Q32 as int,
        );
    }
    ((total as u128) * 1_000_000 / (Q32 as u128)) as u64
}

} // verus!
