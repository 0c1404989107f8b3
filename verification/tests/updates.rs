//! The parameter update path: backpressure on a full queue, FIFO drain into
//! both channel cores, validation of out-of-range events, and the per-block
//! entry point.

use compressor::block::{drain_changes, process_block};
use compressor::channel::{channel_bounded, send_with_retry, SendStatus, SEND_RETRY_LIMIT};
use compressor::compressor::Compressor;
use compressor::params::{CompressorParameters, ParamType};
use compressor::units::{MAKEUP_MAX, SCALE};

#[test]
fn overfilling_the_queue_never_blocks_and_keeps_fifo_order() {
    let (tx, rx) = channel_bounded(4);
    let mut params = CompressorParameters::new(tx);
    // eight sends into a queue of four: the producer returns every time, the
    // first four events are queued, the rest are dropped after bounded retries
    for k in 0..8i64 {
        let s = params.set_parameter(0, (k + 1) * 1000);
        if k < 4 {
            assert_eq!(s, SendStatus::Sent);
        } else {
            assert_eq!(s, SendStatus::Full);
        }
    }
    let mut left = Compressor::new();
    let mut right = Compressor::new();
    let mut makeup: i64 = 0;
    drain_changes(&rx, &mut left, &mut right, &mut makeup, 64);
    // the last applied change is the fourth one sent, in arrival order
    assert_eq!(left.threshold, CompressorParameters::cook(0, 4000));
    assert_eq!(left, right);
    assert_eq!(makeup, 0);
    // the dropped fifth change never arrived
    assert_ne!(left.threshold, CompressorParameters::cook(0, 5000));
}

#[test]
fn drain_applies_each_kind_of_change() {
    let (tx, rx) = channel_bounded(16);
    let mut params = CompressorParameters::new(tx);
    params.set_parameter(0, 0); // threshold -96 dB
    params.set_parameter(1, 1_000_000); // ratio 10
    params.set_parameter(2, 0); // attack 0.1 ms
    params.set_parameter(3, 1_000_000); // release 1000.2 ms
    params.set_parameter(4, 500_000); // makeup 20 dB
    let mut left = Compressor::new();
    let mut right = Compressor::new();
    let mut makeup: i64 = 0;
    let peak_avg_before = left.peak_avg;
    let gain_avg_before = left.gain_avg;
    drain_changes(&rx, &mut left, &mut right, &mut makeup, 64);
    assert_eq!(left.threshold, -96 * SCALE);
    assert_eq!(left.ratio, 10 * SCALE);
    assert_eq!(left.att_ms, SCALE / 10);
    assert_eq!(left.rel_ms, 10_002_000_000);
    assert_eq!(left.gain_at, left.calc_tau(SCALE / 10));
    assert_eq!(left.gain_rt, left.calc_tau(10_002_000_000));
    assert_eq!(makeup, 20 * SCALE);
    assert_eq!(left, right);
    // the drain never touches envelope memory
    assert_eq!(left.peak_avg, peak_avg_before);
    assert_eq!(left.gain_avg, gain_avg_before);
}

#[test]
fn drain_ignores_events_outside_the_accepted_ranges() {
    let (tx, rx) = channel_bounded(8);
    send_with_retry(&tx, ParamType::Ratio(SCALE / 2), SEND_RETRY_LIMIT);
    send_with_retry(&tx, ParamType::Attack(0), SEND_RETRY_LIMIT);
    send_with_retry(&tx, ParamType::Makeup(MAKEUP_MAX + 1), SEND_RETRY_LIMIT);
    send_with_retry(&tx, ParamType::Threshold(-5 * SCALE), SEND_RETRY_LIMIT);
    let mut left = Compressor::new();
    let mut right = Compressor::new();
    let mut makeup: i64 = 0;
    let before = left;
    drain_changes(&rx, &mut left, &mut right, &mut makeup, 64);
    assert_eq!(left.ratio, before.ratio);
    assert_eq!(left.att_ms, before.att_ms);
    assert_eq!(makeup, 0);
    assert_eq!(left.threshold, -5 * SCALE);
}

#[test]
fn send_into_a_full_queue_reports_full_after_bounded_retries() {
    let (tx, rx) = channel_bounded(2);
    assert_eq!(send_with_retry(&tx, ParamType::Makeup(0), SEND_RETRY_LIMIT), SendStatus::Sent);
    assert_eq!(send_with_retry(&tx, ParamType::Makeup(SCALE), SEND_RETRY_LIMIT), SendStatus::Sent);
    let s = send_with_retry(&tx, ParamType::Makeup(2 * SCALE), SEND_RETRY_LIMIT);
    assert_eq!(s, SendStatus::Full);
    drop(rx);
}

#[test]
fn send_after_receiver_is_gone_reports_disconnected() {
    let (tx, rx) = channel_bounded(4);
    drop(rx);
    let s = send_with_retry(&tx, ParamType::Threshold(0), SEND_RETRY_LIMIT);
    assert_eq!(s, SendStatus::Disconnected);
}

#[test]
fn process_block_matches_per_sample_compression_at_zero_makeup() {
    let mut blockwise = Compressor::new().with_ratio(4 * SCALE).with_threshold(-12 * SCALE);
    let mut samplewise = blockwise;
    let input = vec![SCALE, -2 * SCALE, 4 * SCALE, 0, 30_000_000, -SCALE, 0, 2 * SCALE];
    let out = process_block(&mut blockwise, 0, &input);
    assert_eq!(out.len(), input.len());
    for (x, y) in input.iter().zip(out.iter()) {
        let (o, _, _, _) = samplewise.compress(*x);
        assert_eq!(*y, o);
    }
    assert_eq!(blockwise, samplewise);
}

#[test]
fn process_block_applies_forty_decibels_of_makeup() {
    // ratio 1 leaves the signal untouched, so makeup alone scales the output
    let mut c = Compressor::new().with_ratio(SCALE);
    let input = vec![SCALE, -SCALE, 2_000_000, 0];
    let out = process_block(&mut c, 40 * SCALE, &input);
    // the smoothed gain stays at unity under ratio 1 from a unity start, and
    // the boost is 99.999 in fixed point
    assert_eq!(out, vec![999_990_000, -999_990_000, 199_998_000, 0]);
}
