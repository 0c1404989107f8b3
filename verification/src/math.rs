//! Fixed-point transcendentals for the gain computer: a decaying
//! exponential (for time constants and decibel-to-linear conversion) and a
//! base-two logarithm scaled to decibels.
//!
//! Both run internally at the finer `FINE_SCALE` (a hundredth of a public
//! unit) with rounding divisions, so the truncation noise that the squaring
//! chains amplify stays below one public unit; results are exact values of
//! their spec mirrors, and land within a few parts in ten million of the
//! real-valued laws over the whole admitted range.

use vstd::prelude::*;
use vstd::arithmetic::div_mod::{
    lemma_div_is_ordered, lemma_div_is_ordered_by_denominator, lemma_div_pos_is_pos,
    lemma_fundamental_div_mod_converse_div,
};
use vstd::arithmetic::mul::{lemma_mul_inequality, lemma_mul_is_commutative, lemma_mul_nonnegative};
use crate::units::{SCALE, MAX_SAMPLE, MAKEUP_MAX};

verus! {

/// Internal scale of the exponential and logarithm chains: 1.0 at one part
/// in a billion, a hundred times finer than the public `SCALE`.
pub const FINE_SCALE: i64 = 1_000_000_000;

/// Arguments at or above this value (20.0) make `exp_neg` underflow to zero.
pub const EXP_CUTOFF: i64 = 200_000_000;

/// ln 10 in fixed point.
pub const LN10: i64 = 23_025_851;

/// 20 * log10(2) in fixed point: decibels per octave of magnitude.
pub const DB_PER_LOG2: i64 = 60_206_000;

/// Largest magnitude `db_of` can return.
pub const DB_ABS_MAX: i64 = 2_000_000_000;

/// One step of repeated squaring at the fine scale, rounded.
pub open spec fn sq_fine(v: int) -> int {
    (v * v + FINE_SCALE / 2) / (FINE_SCALE as int)
}

/// e^(-x / SCALE) at fixed point.  The exponent moves to the fine scale and
/// is cut down by 1024, a short rational approximates the base value, and
/// ten squarings undo the reduction; nothing of the argument is thrown away
/// beyond the fine scale's resolution.
pub open spec fn exp_neg_spec(x: int) -> int {
    if x >= EXP_CUTOFF {
        0
    } else {
        let red = (x * 100 + 512) / 1024;
        let denom = FINE_SCALE + red + (red * red + FINE_SCALE) / (2 * FINE_SCALE as int);
        let v0 = (FINE_SCALE * FINE_SCALE + denom / 2) / denom;
        let v10 = sq_fine(sq_fine(sq_fine(sq_fine(sq_fine(
            sq_fine(sq_fine(sq_fine(sq_fine(sq_fine(v0))))))))));
        (v10 + 50) / 100
    }
}

/// A rounded division never overshoots a bound the numerator respects:
/// if `a <= q * d`, then `(a + d/2) / d <= q`.
proof fn lemma_round_div_le(a: int, q: int, d: int)
    requires
        1 <= d,
        0 <= a,
        0 <= q,
        a <= q * d,
    ensures
        0 <= (a + d / 2) / d <= q,
{
    lemma_div_pos_is_pos(a + d / 2, d);
    lemma_div_is_ordered(a + d / 2, q * d + d / 2, d);
    lemma_fundamental_div_mod_converse_div(q * d + d / 2, d, q, d / 2);
}

/// Rounded squaring keeps a fine-scale value inside [0, 1].
proof fn lemma_sq_fine_bound(v: int)
    requires
        0 <= v <= FINE_SCALE,
    ensures
        0 <= v * v <= FINE_SCALE * FINE_SCALE,
        0 <= sq_fine(v) <= FINE_SCALE,
{
    lemma_mul_nonnegative(v, v);
    assert(v * v <= FINE_SCALE * FINE_SCALE) by (nonlinear_arith)
        requires 0 <= v <= FINE_SCALE;
    lemma_round_div_le(v * v, FINE_SCALE as int, FINE_SCALE as int);
}

/// The decaying exponential never leaves the unit interval: whatever the
/// (nonnegative) argument, the result is a gain between 0 and 1.
pub proof fn lemma_exp_neg_in_unit(x: int)
    requires
        0 <= x,
    ensures
        0 <= exp_neg_spec(x) <= SCALE,
{
    if x < EXP_CUTOFF {
        let red = (x * 100 + 512) / 1024;
        lemma_div_pos_is_pos(x * 100 + 512, 1024);
        lemma_mul_nonnegative(red, red);
        lemma_div_pos_is_pos(red * red + FINE_SCALE, 2 * FINE_SCALE as int);
        let denom = FINE_SCALE + red + (red * red + FINE_SCALE) / (2 * FINE_SCALE as int);
        lemma_mul_inequality(FINE_SCALE as int, denom, FINE_SCALE as int);
        lemma_mul_is_commutative(denom, FINE_SCALE as int);
        lemma_round_div_le(FINE_SCALE * FINE_SCALE, FINE_SCALE as int, denom);
        let v0 = (FINE_SCALE * FINE_SCALE + denom / 2) / denom;
        lemma_sq_fine_bound(v0);
        lemma_sq_fine_bound(sq_fine(v0));
        lemma_sq_fine_bound(sq_fine(sq_fine(v0)));
        lemma_sq_fine_bound(sq_fine(sq_fine(sq_fine(v0))));
        lemma_sq_fine_bound(sq_fine(sq_fine(sq_fine(sq_fine(v0)))));
        lemma_sq_fine_bound(sq_fine(sq_fine(sq_fine(sq_fine(sq_fine(v0))))));
        lemma_sq_fine_bound(sq_fine(sq_fine(sq_fine(sq_fine(sq_fine(sq_fine(v0)))))));
        lemma_sq_fine_bound(sq_fine(sq_fine(sq_fine(sq_fine(sq_fine(sq_fine(sq_fine(
            v0))))))));
        lemma_sq_fine_bound(sq_fine(sq_fine(sq_fine(sq_fine(sq_fine(sq_fine(sq_fine(
            sq_fine(v0)))))))));
        lemma_sq_fine_bound(sq_fine(sq_fine(sq_fine(sq_fine(sq_fine(sq_fine(sq_fine(
            sq_fine(sq_fine(v0))))))))));
        let v10 = sq_fine(sq_fine(sq_fine(sq_fine(sq_fine(
            sq_fine(sq_fine(sq_fine(sq_fine(sq_fine(v0))))))))));
        lemma_round_div_le(v10, SCALE as int, 100);
    }
}

fn sq_step(v: i64) -> (r: i64)
    requires
        0 <= v <= FINE_SCALE,
    ensures
        r == sq_fine(v as int),
        0 <= r <= FINE_SCALE,
{
    proof {
        lemma_sq_fine_bound(v as int);
    }
    (v * v + FINE_SCALE / 2) / FINE_SCALE
}

/// e^(-x / SCALE), always inside [0, 1].
pub fn exp_neg(x: i64) -> (r: i64)
    requires
        0 <= x,
    ensures
        r == exp_neg_spec(x as int),
        0 <= r <= SCALE,
{
    if x >= EXP_CUTOFF {
        return 0;
    }
    let red = (x * 100 + 512) / 1024;
    assert(0 <= red * red <= 400_000_000_000_000) by (nonlinear_arith)
        requires 0 <= red < 20_000_000;
    let denom = FINE_SCALE + red + (red * red + FINE_SCALE) / (2 * FINE_SCALE);
    proof {
        lemma_div_pos_is_pos(red * red + FINE_SCALE, 2 * FINE_SCALE as int);
        lemma_div_is_ordered(red * red + FINE_SCALE, 400_001_000_000_000,
            2 * FINE_SCALE as int);
        lemma_mul_inequality(FINE_SCALE as int, denom as int, FINE_SCALE as int);
        lemma_mul_is_commutative(denom as int, FINE_SCALE as int);
        lemma_round_div_le(FINE_SCALE * FINE_SCALE, FINE_SCALE as int, denom as int);
    }
    let v0 = (FINE_SCALE * FINE_SCALE + denom / 2) / denom;
    let v1 = sq_step(v0);
    let v2 = sq_step(v1);
    let v3 = sq_step(v2);
    let v4 = sq_step(v3);
    let v5 = sq_step(v4);
    let v6 = sq_step(v5);
    let v7 = sq_step(v6);
    let v8 = sq_step(v7);
    let v9 = sq_step(v8);
    let v10 = sq_step(v9);
    proof {
        lemma_round_div_le(v10 as int, SCALE as int, 100);
    }
    (v10 + 50) / 100
}

/// One conditional doubling of the normalization, taking the mantissa
/// toward [FINE_SCALE, 2 * FINE_SCALE) from below.
pub open spec fn up_step(m: int, e: int, factor: int, shift: int) -> (int, int) {
    if m * factor < 2 * FINE_SCALE {
        (m * factor, e - shift)
    } else {
        (m, e)
    }
}

/// One conditional halving of the normalization, taking the mantissa toward
/// [FINE_SCALE, 2 * FINE_SCALE) from above.
pub open spec fn down_step(m: int, e: int) -> (int, int) {
    if m >= 2 * FINE_SCALE {
        (m / 2, e + 1)
    } else {
        (m, e)
    }
}

/// Binary normalization of a positive public-scale value at the fine scale:
/// the result is a mantissa in [FINE_SCALE, 2 * FINE_SCALE) and the base-two
/// exponent that was shifted out.
pub open spec fn normalize_spec(p: int) -> (int, int) {
    let s1 = up_step(p * 100, 0, 65536, 16);
    let s2 = up_step(s1.0, s1.1, 256, 8);
    let s3 = up_step(s2.0, s2.1, 16, 4);
    let s4 = up_step(s3.0, s3.1, 4, 2);
    let s5 = up_step(s4.0, s4.1, 2, 1);
    let t1 = down_step(s5.0, s5.1);
    let t2 = down_step(t1.0, t1.1);
    let t3 = down_step(t2.0, t2.1);
    let t4 = down_step(t3.0, t3.1);
    let t5 = down_step(t4.0, t4.1);
    let t6 = down_step(t5.0, t5.1);
    down_step(t6.0, t6.1)
}

/// One bit of the fractional logarithm: square the mantissa and renormalize,
/// recording the bit's weight when a halving was needed.
pub open spec fn frac_step(m: int, frac: int, add: int) -> (int, int, int) {
    let m1 = (m * m) / (FINE_SCALE as int);
    if m1 >= 2 * FINE_SCALE {
        (m1 / 2, frac + add, add / 2)
    } else {
        (m1, frac, add / 2)
    }
}

/// `n` fractional-bit steps in sequence.
pub open spec fn frac_steps(m: int, frac: int, add: int, n: nat) -> (int, int, int)
    decreases n,
{
    if n == 0 {
        (m, frac, add)
    } else {
        let s = frac_step(m, frac, add);
        frac_steps(s.0, s.1, s.2, (n - 1) as nat)
    }
}

/// log2(p / SCALE) at the fine scale, to sixteen fractional bits.
pub open spec fn log2_fixed_spec(p: int) -> int {
    let norm = normalize_spec(p);
    let fr = frac_steps(norm.0, 0, FINE_SCALE as int / 2, 16);
    norm.1 * FINE_SCALE + fr.1
}

/// 20 * log10(p / SCALE), back at the public scale.
pub open spec fn db_of_spec(p: int) -> int {
    let l = log2_fixed_spec(p);
    if l >= 0 {
        l * DB_PER_LOG2 / (FINE_SCALE as int)
    } else {
        -((-l) * DB_PER_LOG2 / (FINE_SCALE as int))
    }
}

/// Squaring a normalized mantissa stays inside [FINE_SCALE, 4 * FINE_SCALE).
proof fn lemma_mant_sq(m: int, s: int) by (nonlinear_arith)
    requires
        1 <= s,
        s <= m < 2 * s,
    ensures
        s * s <= m * m < 4 * s * s,
        s <= (m * m) / s < 4 * s,
{
}

/// Magnitude of `p / SCALE` in decibels, for positive fixed-point `p`.
pub fn db_of(peak: i64) -> (r: i64)
    requires
        1 <= peak <= MAX_SAMPLE,
    ensures
        r == db_of_spec(peak as int),
        -DB_ABS_MAX <= r <= DB_ABS_MAX,
{
    let mut m = peak * 100;
    let mut e: i64 = 0;
    if m * 65536 < 2 * FINE_SCALE {
        m = m * 65536;
        e = e - 16;
    }
    if m * 256 < 2 * FINE_SCALE {
        m = m * 256;
        e = e - 8;
    }
    if m * 16 < 2 * FINE_SCALE {
        m = m * 16;
        e = e - 4;
    }
    if m * 4 < 2 * FINE_SCALE {
        m = m * 4;
        e = e - 2;
    }
    if m * 2 < 2 * FINE_SCALE {
        m = m * 2;
        e = e - 1;
    }
    if m >= 2 * FINE_SCALE {
        m = m / 2;
        e = e + 1;
    }
    if m >= 2 * FINE_SCALE {
        m = m / 2;
        e = e + 1;
    }
    if m >= 2 * FINE_SCALE {
        m = m / 2;
        e = e + 1;
    }
    if m >= 2 * FINE_SCALE {
        m = m / 2;
        e = e + 1;
    }
    if m >= 2 * FINE_SCALE {
        m = m / 2;
        e = e + 1;
    }
    if m >= 2 * FINE_SCALE {
        m = m / 2;
        e = e + 1;
    }
    if m >= 2 * FINE_SCALE {
        m = m / 2;
        e = e + 1;
    }
    assert(FINE_SCALE <= m < 2 * FINE_SCALE);
    assert(-31 <= e <= 7);
    assert((m as int, e as int) == normalize_spec(peak as int));

    let ghost m0: int = m as int;
    let mut frac: i64 = 0;
    let mut add: i64 = FINE_SCALE / 2;
    let mut i: u64 = 0;
    while i < 16
        invariant
            0 <= i <= 16,
            FINE_SCALE <= m < 2 * FINE_SCALE,
            0 <= frac,
            0 <= add,
            frac + 2 * add <= FINE_SCALE,
            frac_steps(m as int, frac as int, add as int, (16 - i) as nat)
                == frac_steps(m0, 0, FINE_SCALE as int / 2, 16),
        decreases 16 - i,
    {
        let ghost pm: int = m as int;
        let ghost pf: int = frac as int;
        let ghost pa: int = add as int;
        proof {
            lemma_mant_sq(m as int, FINE_SCALE as int);
        }
        let m1 = (m * m) / FINE_SCALE;
        if m1 >= 2 * FINE_SCALE {
            m = m1 / 2;
            frac = frac + add;
        } else {
            m = m1;
        }
        add = add / 2;
        proof {
            assert((m as int, frac as int, add as int) == frac_step(pm, pf, pa));
            assert(frac_steps(pm, pf, pa, (16 - i) as nat)
                == frac_steps(m as int, frac as int, add as int, (15 - i) as nat));
        }
        i = i + 1;
    }
    assert(frac == frac_steps(m0, 0, FINE_SCALE as int / 2, 16).1);

    let l = e * FINE_SCALE + frac;
    assert(l == log2_fixed_spec(peak as int));
    if l >= 0 {
        l * DB_PER_LOG2 / FINE_SCALE
    } else {
        -((-l) * DB_PER_LOG2 / FINE_SCALE)
    }
}

/// 10^(-y / (20 * SCALE)): the linear gain of `y` fixed-point decibels of
/// attenuation.
pub open spec fn db_atten_spec(y: int) -> int {
    exp_neg_spec(y * LN10 / (20 * SCALE as int))
}

/// Linear gain for a nonnegative decibel attenuation; never amplifies.
pub fn db_atten(y: i64) -> (r: i64)
    requires
        0 <= y <= 4_000_000_000,
    ensures
        r == db_atten_spec(y as int),
        0 <= r <= SCALE,
{
    assert(0 <= y * LN10 <= 4_000_000_000 * 23_025_851) by (nonlinear_arith)
        requires 0 <= y <= 4_000_000_000;
    let x = y * LN10 / (20 * SCALE);
    proof {
        lemma_div_pos_is_pos(y as int * LN10 as int, 20 * SCALE as int);
    }
    exp_neg(x)
}

/// 10^(db / (20 * SCALE)) for a nonnegative decibel boost, clamped to the
/// fixed-point range (at most 100.0, i.e. 40 dB).
pub open spec fn makeup_lin_spec(db: int) -> int {
    let x = db * LN10 / (20 * SCALE as int);
    let en = exp_neg_spec(x);
    let en1 = if en < 1 { 1int } else { en };
    let v = SCALE * SCALE / en1;
    if v > 100 * SCALE {
        100 * SCALE as int
    } else {
        v
    }
}

/// Linear makeup gain from fixed-point decibels.
pub fn makeup_linear(db: i64) -> (r: i64)
    requires
        0 <= db <= MAKEUP_MAX,
    ensures
        r == makeup_lin_spec(db as int),
        SCALE <= r <= 100 * SCALE,
{
    assert(0 <= db * LN10 <= 400_000_000 * 23_025_851) by (nonlinear_arith)
        requires 0 <= db <= 400_000_000;
    let x = db * LN10 / (20 * SCALE);
    proof {
        lemma_div_pos_is_pos(db as int * LN10 as int, 20 * SCALE as int);
    }
    let en = exp_neg(x);
    let en1 = if en < 1 { 1 } else { en };
    proof {
        lemma_div_pos_is_pos(SCALE * SCALE, en1 as int);
        lemma_div_is_ordered_by_denominator(SCALE * SCALE, en1 as int, SCALE as int);
        lemma_fundamental_div_mod_converse_div(SCALE * SCALE, SCALE as int, SCALE as int, 0);
    }
    let v = (SCALE * SCALE) / en1;
    if v > 100 * SCALE {
        100 * SCALE
    } else {
        v
    }
}

} // verus!
