//! The per-block processing path: drain pending parameter changes and apply
//! them to every channel's core in arrival order, then run each sample
//! through the compressor and the makeup gain.
//!
//! The receive end of the channel is trusted and promises nothing about the
//! events it yields, so the drain validates every event; the configuration
//! of the two channels therefore stays well formed, and stays identical when
//! it started identical.

use vstd::prelude::*;
use vstd::arithmetic::div_mod::{
    lemma_div_is_ordered, lemma_div_pos_is_pos, lemma_div_by_multiple,
};
use vstd::arithmetic::mul::{lemma_mul_nonnegative, lemma_mul_upper_bound};
use crate::channel::try_recv_param;
use crate::compressor::{
    calc_tau_spec, compress_out_spec, compress_peak_spec, compress_smoothed_spec, scale_mul_spec,
    Compressor,
};
use crate::math::{makeup_lin_spec, makeup_linear};
use crate::params::{wf_change, ParamType};
use crate::units::{abs_spec, DB_BOUND, MAKEUP_MAX, MAX_SAMPLE, MS_MAX, MS_MIN, RATIO_MAX, SCALE};

verus! {

/// The configuration a compressor core moves to on one change.
pub open spec fn apply_change_spec(c: Compressor, ch: ParamType) -> Compressor {
    match ch {
        ParamType::Threshold(t) => Compressor { threshold: t, ..c },
        ParamType::Ratio(r) => Compressor { ratio: r, ..c },
        ParamType::Attack(a) => Compressor {
            att_ms: a,
            gain_at: calc_tau_spec(a as int, c.sample_rate as int) as i64,
            ..c
        },
        ParamType::Release(r) => Compressor {
            rel_ms: r,
            gain_rt: calc_tau_spec(r as int, c.sample_rate as int) as i64,
            ..c
        },
        ParamType::Makeup(_) => c,
    }
}

/// The makeup gain after one change.
pub open spec fn apply_makeup_spec(m: int, ch: ParamType) -> int {
    match ch {
        ParamType::Makeup(v) => v as int,
        _ => m,
    }
}

/// Whether the audio side accepts this change.
pub fn change_in_range(c: &ParamType) -> (b: bool)
    ensures
        b == wf_change(*c),
{
    match c {
        ParamType::Threshold(t) => -DB_BOUND <= *t && *t <= DB_BOUND,
        ParamType::Ratio(r) => SCALE <= *r && *r <= RATIO_MAX,
        ParamType::Attack(a) => MS_MIN <= *a && *a <= MS_MAX,
        ParamType::Release(r) => MS_MIN <= *r && *r <= MS_MAX,
        ParamType::Makeup(m) => 0 <= *m && *m <= MAKEUP_MAX,
    }
}

/// Apply one validated change identically to both channel cores (and to the
/// block-level makeup gain); envelope memory is untouched.
pub fn apply_change(left: &mut Compressor, right: &mut Compressor, makeup_db: &mut i64,
    change: ParamType)
    requires
        old(left).wf(),
        old(right).wf(),
        wf_change(change),
        0 <= *old(makeup_db) <= MAKEUP_MAX,
    ensures
        *final(left) == apply_change_spec(*old(left), change),
        *final(right) == apply_change_spec(*old(right), change),
        *final(makeup_db) == apply_makeup_spec(*old(makeup_db) as int, change),
        final(left).wf(),
        final(right).wf(),
        0 <= *final(makeup_db) <= MAKEUP_MAX,
        final(left).peak_avg == old(left).peak_avg,
        final(left).gain_avg == old(left).gain_avg,
        final(right).peak_avg == old(right).peak_avg,
        final(right).gain_avg == old(right).gain_avg,
{
    match change {
        ParamType::Threshold(t) => {
            left.threshold = t;
            right.threshold = t;
        },
        ParamType::Ratio(r) => {
            left.ratio = r;
            right.ratio = r;
        },
        ParamType::Attack(a) => {
            left.set_attack(a);
            right.set_attack(a);
        },
        ParamType::Release(r) => {
            left.set_release(r);
            right.set_release(r);
        },
        ParamType::Makeup(m) => {
            *makeup_db = m;
        },
    }
}

/// Drain all currently queued changes, never blocking and never taking more
/// than `max_events` receives, and apply each valid one to both cores in
/// arrival order.  Envelope memory is untouched, and cores that started with
/// the same state end with the same state.
pub fn drain_changes(rx: &crossbeam::channel::Receiver<ParamType>, left: &mut Compressor,
    right: &mut Compressor, makeup_db: &mut i64, max_events: usize)
    requires
        old(left).wf(),
        old(right).wf(),
        0 <= *old(makeup_db) <= MAKEUP_MAX,
    ensures
        final(left).wf(),
        final(right).wf(),
        0 <= *final(makeup_db) <= MAKEUP_MAX,
        final(left).peak_avg == old(left).peak_avg,
        final(left).gain_avg == old(left).gain_avg,
        final(right).peak_avg == old(right).peak_avg,
        final(right).gain_avg == old(right).gain_avg,
        *old(left) == *old(right) ==> *final(left) == *final(right),
{
    let mut i: usize = 0;
    while i < max_events
        invariant
            0 <= i <= max_events,
            left.wf(),
            right.wf(),
            0 <= *makeup_db <= MAKEUP_MAX,
            left.peak_avg == old(left).peak_avg,
            left.gain_avg == old(left).gain_avg,
            right.peak_avg == old(right).peak_avg,
            right.gain_avg == old(right).gain_avg,
            *old(left) == *old(right) ==> *left == *right,
        decreases max_events - i,
    {
        match try_recv_param(rx) {
            None => {
                return ;
            },
            Some(change) => {
                if change_in_range(&change) {
                    apply_change(left, right, makeup_db, change);
                }
            },
        }
        i = i + 1;
    }
}

/// One compressed and makeup-scaled sample, and the state that produced it.
pub open spec fn block_step_spec(c: Compressor, mk: int, x: i64) -> (Compressor, i64) {
    let next = Compressor {
        peak_avg: compress_peak_spec(c, x as int) as i64,
        gain_avg: compress_smoothed_spec(c, x as int) as i64,
        ..c
    };
    (next, scale_mul_spec(mk, compress_out_spec(c, x as int)) as i64)
}

/// A whole block, front to back: the final state and the output samples.
pub open spec fn process_spec(c: Compressor, mk: int, s: Seq<i64>) -> (Compressor, Seq<i64>)
    decreases s.len(),
{
    if s.len() == 0 {
        (c, Seq::empty())
    } else {
        let st = block_step_spec(c, mk, s[0]);
        let rest = process_spec(st.0, mk, s.subrange(1, s.len() as int));
        (rest.0, seq![st.1] + rest.1)
    }
}

/// One sample through the compressor with the makeup gain applied: the
/// non-allocating per-sample form of the block path, for a host that must
/// not allocate on the audio thread and writes straight into its own buffer.
pub fn compress_sample(comp: &mut Compressor, mk: i64, x: i64) -> (y: i64)
    requires
        old(comp).wf(),
        SCALE <= mk <= 100 * SCALE,
        -MAX_SAMPLE <= x <= MAX_SAMPLE,
    ensures
        final(comp).wf(),
        (*final(comp), y) == block_step_spec(*old(comp), mk as int, x),
{
    let (cmp, _peak, _gain, _smoothed) = comp.compress(x);
    proof {
        lemma_mul_nonnegative(mk as int, abs_spec(cmp as int));
        lemma_mul_upper_bound(mk as int, 100 * SCALE as int, abs_spec(cmp as int),
            MAX_SAMPLE as int);
        lemma_div_pos_is_pos(mk as int * abs_spec(cmp as int), SCALE as int);
        lemma_div_is_ordered(mk as int * abs_spec(cmp as int),
            100 * SCALE as int * MAX_SAMPLE as int, SCALE as int);
        assert(100 * SCALE as int * MAX_SAMPLE as int == (100 * MAX_SAMPLE as int) * SCALE
            as int) by (nonlinear_arith);
        lemma_div_by_multiple(100 * MAX_SAMPLE as int, SCALE as int);
    }
    if cmp >= 0 {
        mk * cmp / SCALE
    } else {
        -(mk * (-cmp) / SCALE)
    }
}

/// Compress one channel's block and apply the makeup gain to every output
/// sample.  The whole trace is pinned down by `process_spec`.
pub fn process_block(comp: &mut Compressor, makeup_db: i64, input: &Vec<i64>) -> (out: Vec<i64>)
    requires
        old(comp).wf(),
        0 <= makeup_db <= MAKEUP_MAX,
        forall|j: int| 0 <= j < input@.len() ==> -MAX_SAMPLE <= #[trigger] input@[j] <= MAX_SAMPLE,
    ensures
        final(comp).wf(),
        out@.len() == input@.len(),
        *final(comp) == process_spec(*old(comp), makeup_lin_spec(makeup_db as int), input@).0,
        out@ == process_spec(*old(comp), makeup_lin_spec(makeup_db as int), input@).1,
{
    let mk = makeup_linear(makeup_db);
    let ghost c0: Compressor = *old(comp);
    let ghost full: Seq<i64> = input@;
    let mut out: Vec<i64> = Vec::new();
    let n = input.len();
    proof {
        assert(full.subrange(0, n as int) =~= full);
        let rest0 = process_spec(c0, mk as int, full);
        assert(out@ + rest0.1 =~= rest0.1);
    }
    let mut i: usize = 0;
    while i < n
        invariant
            0 <= i <= n,
            n == full.len(),
            full == input@,
            comp.wf(),
            SCALE <= mk <= 100 * SCALE,
            mk == makeup_lin_spec(makeup_db as int),
            forall|j: int| 0 <= j < full.len() ==> -MAX_SAMPLE <= #[trigger] full[j] <= MAX_SAMPLE,
            out@.len() == i,
            process_spec(c0, mk as int, full) == {
                let rest = process_spec(*comp, mk as int, full.subrange(i as int, n as int));
                (rest.0, out@ + rest.1)
            },
        decreases n - i,
    {
        let ghost pre: Compressor = *comp;
        let x = input[i];
        let y = compress_sample(comp, mk, x);
        out.push(y);
        proof {
            let sub: Seq<i64> = full.subrange(i as int, n as int);
            assert(sub[0] == full[i as int]);
            assert((*comp, y) == block_step_spec(pre, mk as int, full[i as int]));
            assert(sub.subrange(1, sub.len() as int) =~= full.subrange(i + 1, n as int));
            let rest = process_spec(*comp, mk as int, full.subrange(i + 1, n as int));
            assert(process_spec(pre, mk as int, sub) == (rest.0, seq![y] + rest.1));
            assert(out@ =~= out@.subrange(0, i as int) + seq![y]);
            assert(out@.subrange(0, i as int) + (seq![y] + rest.1) =~= out@ + rest.1);
        }
        i = i + 1;
    }
    proof {
        assert(full.subrange(n as int, n as int) =~= Seq::<i64>::empty());
        assert(out@ + Seq::<i64>::empty() =~= out@);
    }
    out
}

} // verus!
