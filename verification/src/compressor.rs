//! The compressor core: a rectified peak follower, a decibel-domain gain
//! law, and a second smoother for the computed gain, all in fixed point.
//!
//! In the gain-smoothing stage the release coefficient is passed as the
//! rise-side argument and the attack coefficient as the fall-side argument:
//! gain moves opposite to signal level, and this orientation is the one the
//! reference traces validate, so it is kept deliberately.

use vstd::prelude::*;
use vstd::arithmetic::div_mod::{
    lemma_div_is_ordered, lemma_div_is_ordered_by_denominator, lemma_div_pos_is_pos,
    lemma_div_by_multiple,
};
use vstd::arithmetic::mul::{lemma_mul_is_commutative, lemma_mul_nonnegative, lemma_mul_upper_bound};
use crate::math::{
    db_atten, db_atten_spec, db_of, db_of_spec, exp_neg, exp_neg_spec, DB_ABS_MAX, LN10,
};
use crate::units::{
    abs_spec, DB_BOUND, MAX_SAMPLE, MS_MAX, MS_MIN, RATIO_MAX, SCALE, SR_MAX, SR_MIN,
};

verus! {

/// Fixed time constants of the peak detector: 0.01 ms rise, 10 ms fall.
pub const PEAK_ATTACK_MS: i64 = 100_000;
pub const PEAK_RELEASE_MS: i64 = 100_000_000;

/// Numerator of the coefficient law `tau = 1 - e^(-2200 / (t_ms * fs))`,
/// pre-scaled so the quotient is already in fixed point.
pub const TAU_NUM: i64 = 220_000_000_000_000_000;

/// Single-channel compressor state.  All level-like fields are fixed point
/// (SCALE is 1.0); `sample_rate` is plain hertz.
#[derive(Clone, Copy, Debug, PartialEq, Eq, Structural)]
pub struct Compressor {
    /// Peak-follower coefficients and running magnitude average.
    pub peak_at: i64,
    pub peak_rt: i64,
    pub peak_avg: i64,
    /// Gain-smoother coefficients and running gain average.
    pub gain_at: i64,
    pub gain_rt: i64,
    pub gain_avg: i64,
    /// Gain-law configuration.
    pub threshold: i64,
    pub ratio: i64,
    /// Retained so the coefficients can be recomputed on rate changes.
    pub sample_rate: i64,
    pub att_ms: i64,
    pub rel_ms: i64,
}

/// The asymmetric one-pole smoother: rise with `at`, fall with `rt`.
pub open spec fn ar_avg_spec(avg: int, at: int, rt: int, input: int) -> int {
    let tau = if input > avg { at } else { rt };
    ((SCALE - tau) * avg + tau * input) / (SCALE as int)
}

/// The static gain law: attenuation in decibels proportional to how far the
/// peak sits above the threshold, capped at unity, then made linear.  A peak
/// of zero stands for minus infinity decibels and yields unity gain.
pub open spec fn gain_calc_spec(peak: int, threshold: int, ratio: int) -> int {
    if peak == 0 {
        SCALE as int
    } else {
        let db = db_of_spec(peak);
        let slope = SCALE - SCALE * SCALE / ratio;
        let over = threshold - db;
        if over >= 0 {
            SCALE as int
        } else {
            let g = db_atten_spec(slope * (-over) / (SCALE as int));
            if g < 1 {
                1int
            } else {
                g
            }
        }
    }
}

/// The coefficient law `tau = 1 - e^(-2200 / (t_ms * fs))`, clamped to the
/// open fixed-point interval (0, 1).
pub open spec fn calc_tau_spec(time_ms: int, sr: int) -> int {
    let x = (TAU_NUM + (time_ms * sr) / 2) / (time_ms * sr);
    let t = SCALE - exp_neg_spec(x);
    if t < 1 {
        1int
    } else if t > SCALE - 1 {
        SCALE - 1 as int
    } else {
        t
    }
}

/// Fixed-point product with a gain in [0, 1], symmetric in the sign of `x`.
pub open spec fn scale_mul_spec(g: int, x: int) -> int {
    if x >= 0 {
        g * x / (SCALE as int)
    } else {
        -(g * (-x) / (SCALE as int))
    }
}

/// Peak average after one sample.
pub open spec fn compress_peak_spec(c: Compressor, x: int) -> int {
    ar_avg_spec(c.peak_avg as int, c.peak_at as int, c.peak_rt as int, abs_spec(x))
}

/// Instantaneous gain after one sample.
pub open spec fn compress_gain_spec(c: Compressor, x: int) -> int {
    gain_calc_spec(compress_peak_spec(c, x), c.threshold as int, c.ratio as int)
}

/// Smoothed gain after one sample (release coefficient on the rise side).
pub open spec fn compress_smoothed_spec(c: Compressor, x: int) -> int {
    ar_avg_spec(c.gain_avg as int, c.gain_rt as int, c.gain_at as int, compress_gain_spec(c, x))
}

/// Output sample: the smoothed gain applied to the input.
pub open spec fn compress_out_spec(c: Compressor, x: int) -> int {
    scale_mul_spec(compress_smoothed_spec(c, x), x)
}

/// The gain law never amplifies: whatever the peak, the threshold and the
/// (at least unity) ratio, the computed gain stays between 0 and 1.
pub proof fn lemma_gain_never_amplifies(peak: int, threshold: int, ratio: int)
    requires
        0 <= peak,
        SCALE <= ratio,
    ensures
        1 <= gain_calc_spec(peak, threshold, ratio) <= SCALE,
{
    if peak != 0 {
        let db = db_of_spec(peak);
        lemma_div_pos_is_pos(SCALE * SCALE, ratio);
        lemma_div_is_ordered_by_denominator(SCALE * SCALE, SCALE as int, ratio);
        lemma_div_by_multiple(SCALE as int, SCALE as int);
        let slope = SCALE - SCALE * SCALE / ratio;
        let over = threshold - db;
        if over < 0 {
            lemma_mul_nonnegative(slope, -over);
            lemma_div_pos_is_pos(slope * (-over), SCALE as int);
            let y = slope * (-over) / (SCALE as int);
            lemma_mul_nonnegative(y, LN10 as int);
            lemma_div_pos_is_pos(y * LN10, 20 * SCALE as int);
            crate::math::lemma_exp_neg_in_unit(y * LN10 / (20 * SCALE as int));
        }
    }
}

/// Weighted averages of nonnegative values stay between their operands.
proof fn lemma_weighted_avg(a: int, b: int, t: int, s: int)
    requires
        0 <= t <= s,
        1 <= s,
        0 <= a,
        0 <= b,
    ensures
        0 <= (s - t) * a + t * b,
        (s - t) * a + t * b <= s * (if a >= b { a } else { b }),
        0 <= ((s - t) * a + t * b) / s <= (if a >= b { a } else { b }),
        (if a <= b { a } else { b }) <= ((s - t) * a + t * b) / s,
{
    let m: int = if a >= b { a } else { b };
    let n: int = if a <= b { a } else { b };
    assert(s * n <= (s - t) * a + t * b && (s - t) * a + t * b <= s * m) by (nonlinear_arith)
        requires
            0 <= t <= s,
            0 <= a,
            0 <= b,
            m == (if a >= b { a } else { b }),
            n == (if a <= b { a } else { b }),
    ;
    lemma_div_pos_is_pos((s - t) * a + t * b, s);
    lemma_div_is_ordered((s - t) * a + t * b, s * m, s);
    lemma_div_by_multiple(m, s);
    lemma_mul_is_commutative(s, m);
    lemma_div_is_ordered(s * n, (s - t) * a + t * b, s);
    lemma_div_by_multiple(n, s);
    lemma_mul_is_commutative(s, n);
}

impl Compressor {
    /// Configuration and envelope ranges every operation preserves.
    pub open spec fn wf(self) -> bool {
        &&& 1 <= self.peak_at <= SCALE - 1
        &&& 1 <= self.peak_rt <= SCALE - 1
        &&& 1 <= self.gain_at <= SCALE - 1
        &&& 1 <= self.gain_rt <= SCALE - 1
        &&& 0 <= self.peak_avg <= MAX_SAMPLE
        &&& 1 <= self.gain_avg <= SCALE
        &&& -DB_BOUND <= self.threshold <= DB_BOUND
        &&& SCALE <= self.ratio <= RATIO_MAX
        &&& SR_MIN <= self.sample_rate <= SR_MAX
        &&& MS_MIN <= self.att_ms <= MS_MAX
        &&& MS_MIN <= self.rel_ms <= MS_MAX
    }

    /// The smoothing coefficient for a time constant at this sample rate.
    pub fn calc_tau(&self, time_ms: i64) -> (r: i64)
        requires
            MS_MIN <= time_ms <= MS_MAX,
            SR_MIN <= self.sample_rate <= SR_MAX,
        ensures
            r == calc_tau_spec(time_ms as int, self.sample_rate as int),
            1 <= r <= SCALE - 1,
    {
        proof {
            lemma_mul_upper_bound(time_ms as int, MS_MAX as int, self.sample_rate as int,
                SR_MAX as int);
            assert(time_ms * self.sample_rate >= 1) by (nonlinear_arith)
                requires time_ms >= 1, self.sample_rate >= 1;
        }
        let denom = time_ms * self.sample_rate;
        proof {
            lemma_div_pos_is_pos(TAU_NUM + denom as int / 2, denom as int);
            lemma_div_is_ordered_by_denominator(TAU_NUM + denom as int / 2, 1, denom as int);
        }
        let x = (TAU_NUM + denom / 2) / denom;
        let t = SCALE - exp_neg(x);
        if t < 1 {
            1
        } else if t > SCALE - 1 {
            SCALE - 1
        } else {
            t
        }
    }

    /// One smoother update; returns the new average.
    pub fn ar_avg(avg: &mut i64, at: i64, rt: i64, input: i64) -> (r: i64)
        requires
            0 <= *old(avg) <= MAX_SAMPLE,
            0 <= input <= MAX_SAMPLE,
            0 <= at <= SCALE,
            0 <= rt <= SCALE,
        ensures
            r == *final(avg),
            *final(avg) == ar_avg_spec(*old(avg) as int, at as int, rt as int, input as int),
            0 <= r,
            r <= (if *old(avg) >= input { *old(avg) } else { input }),
            (if *old(avg) <= input { *old(avg) } else { input }) <= r,
    {
        let tau = if input > *avg { at } else { rt };
        proof {
            lemma_weighted_avg(*avg as int, input as int, tau as int, SCALE as int);
        }
        *avg = ((SCALE - tau) * *avg + tau * input) / SCALE;
        *avg
    }

    /// The static gain law; never amplifies.
    pub fn gain_calc(input: i64, threshold: i64, ratio: i64) -> (r: i64)
        requires
            0 <= input <= MAX_SAMPLE,
            -DB_BOUND <= threshold <= DB_BOUND,
            SCALE <= ratio,
        ensures
            r == gain_calc_spec(input as int, threshold as int, ratio as int),
            1 <= r <= SCALE,
    {
        if input == 0 {
            return SCALE;
        }
        let db = db_of(input);
        proof {
            lemma_div_pos_is_pos(SCALE * SCALE, ratio as int);
            lemma_div_is_ordered_by_denominator(SCALE * SCALE, SCALE as int, ratio as int);
            lemma_div_by_multiple(SCALE as int, SCALE as int);
        }
        let slope = SCALE - (SCALE * SCALE) / ratio;
        let over = threshold - db;
        if over >= 0 {
            SCALE
        } else {
            proof {
                lemma_mul_nonnegative(slope as int, -over as int);
                lemma_mul_upper_bound(slope as int, SCALE as int, -over as int,
                    (DB_BOUND + DB_ABS_MAX) as int);
                lemma_div_pos_is_pos(slope as int * (-over as int), SCALE as int);
                lemma_div_is_ordered(slope as int * (-over as int),
                    SCALE as int * (DB_BOUND + DB_ABS_MAX) as int, SCALE as int);
                lemma_div_by_multiple((DB_BOUND + DB_ABS_MAX) as int, SCALE as int);
                lemma_mul_is_commutative(SCALE as int, (DB_BOUND + DB_ABS_MAX) as int);
            }
            let atten = slope * (-over) / SCALE;
            let g = db_atten(atten);
            if g < 1 {
                1
            } else {
                g
            }
        }
    }

    /// One sample through the whole chain: peak detection, gain law, gain
    /// smoothing, output scaling.  Returns `(output, peak, gain, smoothed)`.
    pub fn compress(&mut self, input: i64) -> (r: (i64, i64, i64, i64))
        requires
            old(self).wf(),
            -MAX_SAMPLE <= input <= MAX_SAMPLE,
        ensures
            final(self).wf(),
            r.1 == compress_peak_spec(*old(self), input as int),
            r.2 == compress_gain_spec(*old(self), input as int),
            r.3 == compress_smoothed_spec(*old(self), input as int),
            r.0 == compress_out_spec(*old(self), input as int),
            abs_spec(r.0 as int) <= abs_spec(input as int),
            final(self).peak_avg == r.1,
            final(self).gain_avg == r.3,
            *final(self) == (Compressor { peak_avg: r.1, gain_avg: r.3, ..*old(self) }),
    {
        let a = if input < 0 { -input } else { input };
        let peak = Self::ar_avg(&mut self.peak_avg, self.peak_at, self.peak_rt, a);
        let gain = Self::gain_calc(peak, self.threshold, self.ratio);
        let smoothed = Self::ar_avg(&mut self.gain_avg, self.gain_rt, self.gain_at, gain);
        proof {
            lemma_mul_nonnegative(smoothed as int, a as int);
            lemma_mul_upper_bound(smoothed as int, SCALE as int, a as int, MAX_SAMPLE as int);
            lemma_div_pos_is_pos(smoothed as int * a as int, SCALE as int);
            lemma_div_is_ordered(smoothed as int * a as int, SCALE as int * MAX_SAMPLE as int,
                SCALE as int);
            lemma_div_by_multiple(MAX_SAMPLE as int, SCALE as int);
            lemma_mul_is_commutative(SCALE as int, MAX_SAMPLE as int);
            lemma_mul_upper_bound(smoothed as int, SCALE as int, a as int, a as int);
            lemma_div_is_ordered(smoothed as int * a as int, SCALE as int * a as int,
                SCALE as int);
            lemma_div_by_multiple(a as int, SCALE as int);
            lemma_mul_is_commutative(SCALE as int, a as int);
        }
        let outp = if input >= 0 {
            smoothed * input / SCALE
        } else {
            -(smoothed * (-input) / SCALE)
        };
        (outp, peak, gain, smoothed)
    }

    /// Default configuration: threshold 0 dB, ratio 2, attack 10 ms, release
    /// 50 ms, at 48 kHz.
    pub fn new() -> (r: Self)
        ensures
            r.threshold == 0,
            r.ratio == 2 * SCALE,
            r.sample_rate == 48_000,
            r.att_ms == 10 * SCALE,
            r.rel_ms == 50 * SCALE,
            r.peak_avg == 0,
            r.gain_avg == SCALE,
            r.peak_at == calc_tau_spec(PEAK_ATTACK_MS as int, 48_000),
            r.peak_rt == calc_tau_spec(PEAK_RELEASE_MS as int, 48_000),
            r.gain_at == calc_tau_spec(10 * SCALE as int, 48_000),
            r.gain_rt == calc_tau_spec(50 * SCALE as int, 48_000),
            r.wf(),
    {
        let c = Compressor {
            peak_at: 1,
            peak_rt: 1,
            peak_avg: 0,
            gain_at: 1,
            gain_rt: 1,
            gain_avg: SCALE,
            threshold: 0,
            ratio: 2 * SCALE,
            sample_rate: 48_000,
            att_ms: 10 * SCALE,
            rel_ms: 50 * SCALE,
        };
        c.with_sample_rate(48_000)
    }

    /// Move to a new sample rate, recomputing all four coefficients; the
    /// envelope memory is kept.
    #[verifier::rlimit(60)]
    pub fn with_sample_rate(self, fs: i64) -> (r: Self)
        requires
            SR_MIN <= fs <= SR_MAX,
            MS_MIN <= self.att_ms <= MS_MAX,
            MS_MIN <= self.rel_ms <= MS_MAX,
        ensures
            r.sample_rate == fs,
            r.peak_at == calc_tau_spec(PEAK_ATTACK_MS as int, fs as int),
            r.peak_rt == calc_tau_spec(PEAK_RELEASE_MS as int, fs as int),
            r.gain_at == calc_tau_spec(self.att_ms as int, fs as int),
            r.gain_rt == calc_tau_spec(self.rel_ms as int, fs as int),
            r == (Compressor {
                sample_rate: fs,
                peak_at: r.peak_at,
                peak_rt: r.peak_rt,
                gain_at: r.gain_at,
                gain_rt: r.gain_rt,
                ..self
            }),
            self.wf() ==> r.wf(),
            0 <= self.peak_avg <= MAX_SAMPLE && 1 <= self.gain_avg <= SCALE
                && -DB_BOUND <= self.threshold <= DB_BOUND && SCALE <= self.ratio <= RATIO_MAX
                ==> r.wf(),
    {
        let mut c = self;
        c.sample_rate = fs;
        c.peak_at = c.calc_tau(PEAK_ATTACK_MS);
        c.peak_rt = c.calc_tau(PEAK_RELEASE_MS);
        c.gain_at = c.calc_tau(c.att_ms);
        c.gain_rt = c.calc_tau(c.rel_ms);
        c
    }

    /// Set the gain-smoother attack time; only the attack coefficient moves.
    pub fn with_attack(self, att_ms: i64) -> (r: Self)
        requires
            MS_MIN <= att_ms <= MS_MAX,
            SR_MIN <= self.sample_rate <= SR_MAX,
        ensures
            r == (Compressor {
                att_ms: att_ms,
                gain_at: calc_tau_spec(att_ms as int, self.sample_rate as int) as i64,
                ..self
            }),
            self.wf() ==> r.wf(),
    {
        let mut c = self;
        c.att_ms = att_ms;
        c.gain_at = c.calc_tau(att_ms);
        c
    }

    /// Set the gain-smoother release time; only the release coefficient
    /// moves.
    pub fn with_release(self, rel_ms: i64) -> (r: Self)
        requires
            MS_MIN <= rel_ms <= MS_MAX,
            SR_MIN <= self.sample_rate <= SR_MAX,
        ensures
            r == (Compressor {
                rel_ms: rel_ms,
                gain_rt: calc_tau_spec(rel_ms as int, self.sample_rate as int) as i64,
                ..self
            }),
            self.wf() ==> r.wf(),
    {
        let mut c = self;
        c.rel_ms = rel_ms;
        c.gain_rt = c.calc_tau(rel_ms);
        c
    }

    /// Set the threshold in fixed-point decibels.
    pub fn with_threshold(self, thresh: i64) -> (r: Self)
        requires
            -DB_BOUND <= thresh <= DB_BOUND,
        ensures
            r == (Compressor { threshold: thresh, ..self }),
            self.wf() ==> r.wf(),
    {
        let mut c = self;
        c.threshold = thresh;
        c
    }

    /// Set the compression ratio (1.0 means no compression).
    pub fn with_ratio(self, ratio: i64) -> (r: Self)
        requires
            SCALE <= ratio <= RATIO_MAX,
        ensures
            r == (Compressor { ratio: ratio, ..self }),
            self.wf() ==> r.wf(),
    {
        let mut c = self;
        c.ratio = ratio;
        c
    }

    /// Clear the envelope memory; the configuration is untouched.
    pub fn reset(&mut self)
        ensures
            *final(self) == (Compressor { peak_avg: 0, gain_avg: SCALE, ..*old(self) }),
            final(self).gain_avg == SCALE,
            final(self).peak_avg == 0,
            old(self).wf() ==> final(self).wf(),
    {
        self.gain_avg = SCALE;
        self.peak_avg = 0;
    }

    /// In-place form of `with_attack`.
    pub fn set_attack(&mut self, att: i64)
        requires
            MS_MIN <= att <= MS_MAX,
            SR_MIN <= old(self).sample_rate <= SR_MAX,
        ensures
            *final(self) == (Compressor {
                att_ms: att,
                gain_at: calc_tau_spec(att as int, old(self).sample_rate as int) as i64,
                ..*old(self)
            }),
            final(self).gain_rt == old(self).gain_rt,
            old(self).wf() ==> final(self).wf(),
    {
        let c = *self;
        *self = c.with_attack(att);
    }

    /// In-place form of `with_release`.
    pub fn set_release(&mut self, rel: i64)
        requires
            MS_MIN <= rel <= MS_MAX,
            SR_MIN <= old(self).sample_rate <= SR_MAX,
        ensures
            *final(self) == (Compressor {
                rel_ms: rel,
                gain_rt: calc_tau_spec(rel as int, old(self).sample_rate as int) as i64,
                ..*old(self)
            }),
            final(self).gain_at == old(self).gain_at,
            old(self).wf() ==> final(self).wf(),
    {
        let c = *self;
        *self = c.with_release(rel);
    }
}

} // verus!
