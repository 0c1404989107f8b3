//! The compressor core: the gain bound, reset, coefficient recomputation,
//! and sample-exact reference traces for two fixtures.

use compressor::compressor::{Compressor, PEAK_ATTACK_MS, PEAK_RELEASE_MS};
use compressor::units::{MAX_SAMPLE, SCALE};

#[test]
fn gain_never_amplifies_on_a_grid() {
    let peaks = [0i64, 1, 3, 5_000_000, SCALE, 15_000_000, 2 * SCALE, 40 * SCALE, MAX_SAMPLE];
    let thresholds = [-96 * SCALE, -6 * SCALE, 0i64, 12 * SCALE];
    let ratios = [SCALE, 2 * SCALE, 10 * SCALE, 100 * SCALE];
    for &p in peaks.iter() {
        for &t in thresholds.iter() {
            for &r in ratios.iter() {
                let g = Compressor::gain_calc(p, t, r);
                assert!(1 <= g && g <= SCALE);
            }
        }
    }
}

#[test]
fn gain_is_unity_for_silence_and_below_threshold() {
    // a peak of zero stands for minus infinity decibels
    assert_eq!(Compressor::gain_calc(0, 0, 2 * SCALE), SCALE);
    // 1.0 is 0 dB, right at a 0 dB threshold: no reduction yet
    assert_eq!(Compressor::gain_calc(SCALE, 0, 2 * SCALE), SCALE);
    // well below a high threshold
    assert_eq!(Compressor::gain_calc(5_000_000, 12 * SCALE, 10 * SCALE), SCALE);
    // ratio 1.0 never reduces, however loud
    assert_eq!(Compressor::gain_calc(40 * SCALE, -6 * SCALE, SCALE), SCALE);
}

#[test]
fn gain_matches_the_law_at_twice_threshold() {
    // peak 2.0 is 6.0206 dB over a 0 dB threshold at ratio 2: half the
    // overshoot is taken back, 10^(-3.0103/20) = 0.7071068 in fixed point
    assert_eq!(Compressor::gain_calc(2 * SCALE, 0, 2 * SCALE), 7_071_073);
}

#[test]
fn tau_tracks_the_coefficient_law_across_the_cook_range() {
    // tau = 1 - exp(-2200 / (t_ms * fs)) at 48 kHz; the real-valued law
    // gives 3676633.4, 346421.4, 174737.4, 45728.5, 9162.5 and 458.2 in
    // fixed point for these six times, so every coefficient sits within a
    // few parts in ten million of the law
    let c = Compressor::new();
    assert_eq!(c.calc_tau(1_000_000), 3_676_633); // 0.1 ms
    assert_eq!(c.calc_tau(13_000_000), 346_427); // 1.3 ms
    assert_eq!(c.calc_tau(26_000_000), 174_740); // 2.6 ms
    assert_eq!(c.calc_tau(100_000_000), 45_730); // 10 ms
    assert_eq!(c.calc_tau(500_000_000), 9_161); // 50 ms
    assert_eq!(c.calc_tau(10_002_000_000), 461); // 1000.2 ms
}

#[test]
fn reset_clears_envelopes_and_keeps_configuration() {
    let mut c = Compressor::new()
        .with_ratio(10 * SCALE)
        .with_threshold(-6 * SCALE)
        .with_attack(13_000_000)
        .with_release(26_000_000);
    for x in [SCALE, -2 * SCALE, 4 * SCALE, 0, 3 * SCALE] {
        c.compress(x);
    }
    assert!(c.peak_avg != 0 || c.gain_avg != SCALE);
    let before = c;
    c.reset();
    assert_eq!(c.gain_avg, SCALE);
    assert_eq!(c.peak_avg, 0);
    assert_eq!(c.threshold, before.threshold);
    assert_eq!(c.ratio, before.ratio);
    assert_eq!(c.peak_at, before.peak_at);
    assert_eq!(c.peak_rt, before.peak_rt);
    assert_eq!(c.gain_at, before.gain_at);
    assert_eq!(c.gain_rt, before.gain_rt);
    assert_eq!(c.sample_rate, before.sample_rate);
    assert_eq!(c.att_ms, before.att_ms);
    assert_eq!(c.rel_ms, before.rel_ms);
}

#[test]
fn set_attack_moves_only_the_attack_coefficient() {
    let mut c = Compressor::new();
    let old_rt = c.gain_rt;
    let old_at = c.gain_at;
    c.set_attack(13_000_000);
    assert_eq!(c.gain_at, c.calc_tau(13_000_000));
    assert_ne!(c.gain_at, old_at);
    assert_eq!(c.gain_rt, old_rt);
    assert_eq!(c.att_ms, 13_000_000);
}

#[test]
fn set_release_moves_only_the_release_coefficient() {
    let mut c = Compressor::new();
    let old_rt = c.gain_rt;
    let old_at = c.gain_at;
    c.set_release(26_000_000);
    assert_eq!(c.gain_rt, c.calc_tau(26_000_000));
    assert_ne!(c.gain_rt, old_rt);
    assert_eq!(c.gain_at, old_at);
    assert_eq!(c.rel_ms, 26_000_000);
}

#[test]
fn sample_rate_change_recomputes_all_four_coefficients() {
    let c = Compressor::new().with_attack(13_000_000).with_release(26_000_000);
    let moved = c.with_sample_rate(96_000);
    assert_eq!(moved.sample_rate, 96_000);
    assert_eq!(moved.peak_at, moved.calc_tau(PEAK_ATTACK_MS));
    assert_eq!(moved.peak_rt, moved.calc_tau(PEAK_RELEASE_MS));
    assert_eq!(moved.gain_at, moved.calc_tau(13_000_000));
    assert_eq!(moved.gain_rt, moved.calc_tau(26_000_000));
    assert_ne!(moved.peak_at, c.peak_at);
    assert_ne!(moved.peak_rt, c.peak_rt);
    assert_ne!(moved.gain_at, c.gain_at);
    assert_ne!(moved.gain_rt, c.gain_rt);
    // envelope memory is kept
    assert_eq!(moved.peak_avg, c.peak_avg);
    assert_eq!(moved.gain_avg, c.gain_avg);
}

#[test]
fn model_reference() {
    // 48 kHz, ratio 10, threshold -6 dB, attack 1.3 ms, release 2.6 ms
    let mut c = Compressor::new()
        .with_sample_rate(48_000)
        .with_ratio(10 * SCALE)
        .with_threshold(-6 * SCALE)
        .with_attack(13_000_000)
        .with_release(26_000_000);
    assert_eq!(c.peak_at, 9_897_791);
    assert_eq!(c.peak_rt, 45_730);
    assert_eq!(c.gain_at, 346_427);
    assert_eq!(c.gain_rt, 174_740);
    let inputs = [
        SCALE, 2 * SCALE, 4 * SCALE, 4 * SCALE, 4 * SCALE, -4 * SCALE, -2 * SCALE, SCALE, 0, 0,
        5_000_000, 20_000_000, -30_000_000, 0, SCALE, -SCALE,
    ];
    let expected = [
        (9_841_344i64, 9_897_791i64, 5_420_238i64, 9_841_344i64),
        (19_201_154, 19_896_746, 2_891_338, 9_600_577),
        (37_286_644, 39_794_526, 1_549_385, 9_321_661),
        (36_208_648, 39_997_899, 1_542_294, 9_052_162),
        (35_167_988, 39_999_978, 1_542_237, 8_791_997),
        (-34_163_380, 39_999_999, 1_542_237, 8_540_845),
        (-16_597_008, 39_908_539, 1_545_408, 8_298_504),
        (8_064_724, 39_771_767, 1_550_198, 8_064_724),
        (0, 39_589_890, 1_556_602, 7_839_265),
        (0, 39_408_845, 1_563_029, 7_621_839),
        (3_706_070, 39_251_493, 1_568_678, 7_412_141),
        (14_419_634, 39_163_455, 1_571_847, 7_209_817),
        (-21_043_662, 39_121_550, 1_573_360, 7_014_554),
        (0, 38_942_647, 1_579_857, 6_826_281),
        (6_644_698, 38_810_292, 1_584_707, 6_644_698),
        (-6_469_574, 38_678_542, 1_589_572, 6_469_574),
    ];
    for (x, want) in inputs.iter().zip(expected.iter()) {
        let got = c.compress(*x);
        assert_eq!(got, *want);
    }
}

#[test]
fn trace_with_round_coefficients() {
    // a second fixture with half-unit coefficients, ratio 2, threshold 0 dB
    let mut c = Compressor {
        peak_at: 5_000_000,
        peak_rt: 5_000_000,
        peak_avg: 0,
        gain_at: 5_000_000,
        gain_rt: 5_000_000,
        gain_avg: SCALE,
        threshold: 0,
        ratio: 2 * SCALE,
        sample_rate: 48_000,
        att_ms: SCALE,
        rel_ms: SCALE,
    };
    let inputs = [40_000_000i64, 40_000_000, 0, -40_000_000, 10_000_000, 0];
    let expected = [
        (34_142_144i64, 20_000_000i64, 7_071_073i64, 8_535_536i64),
        (28_618_092, 30_000_000, 5_773_510, 7_154_523),
        (0, 15_000_000, 8_164_970, 7_659_746),
        (-27_379_968, 27_500_000, 6_030_238, 6_844_992),
        (7_073_997, 18_750_000, 7_303_003, 7_073_997),
        (0, 9_375_000, 10_000_000, 8_536_998),
    ];
    for (x, want) in inputs.iter().zip(expected.iter()) {
        let got = c.compress(*x);
        assert_eq!(got, *want);
    }
}
