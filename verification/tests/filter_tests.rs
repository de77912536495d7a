//! Exact-value tests for the fixed-point arithmetic, the tuning tables and
//! the filter unit.

use scale_colorizr::envelope::Smoother;
use scale_colorizr::filter::Biquad;
use scale_colorizr::filter::BiquadCoefficients;
use scale_colorizr::fixed::fx_add;
use scale_colorizr::fixed::fx_div;
use scale_colorizr::fixed::fx_mul;
use scale_colorizr::fixed::fx_sub;
use scale_colorizr::fixed::isqrt;
use scale_colorizr::fixed::FX_ONE;
use scale_colorizr::events::compute_fallback_voice_id;
use scale_colorizr::tuning::clamped_cents;
use scale_colorizr::tuning::freq_mhz_of_cents;

#[test]
fn fx_mul_exact_products() {
    assert_eq!(fx_mul(3 * FX_ONE, 2 * FX_ONE), 6 * FX_ONE);
    assert_eq!(fx_mul(-3 * FX_ONE, 2 * FX_ONE), -6 * FX_ONE);
    assert_eq!(fx_mul(FX_ONE / 2, FX_ONE / 2), FX_ONE / 4);
    // Truncation is toward zero on both sides.
    assert_eq!(fx_mul(1, 1), 0);
    assert_eq!(fx_mul(-1, 1), 0);
}

#[test]
fn fx_add_saturates() {
    assert_eq!(fx_add(i64::MAX, 1), i64::MAX);
    assert_eq!(fx_add(i64::MIN, -1), i64::MIN);
    assert_eq!(fx_sub(i64::MIN, 1), i64::MIN);
    assert_eq!(fx_add(5, 7), 12);
}

#[test]
fn fx_div_exact_quotients() {
    assert_eq!(fx_div(6 * FX_ONE, 2 * FX_ONE), 3 * FX_ONE);
    assert_eq!(fx_div(-6 * FX_ONE, 2 * FX_ONE), -3 * FX_ONE);
    assert_eq!(fx_div(FX_ONE, 3 * FX_ONE), 21845);
}

#[test]
fn isqrt_exact_roots() {
    assert_eq!(isqrt(0), 0);
    assert_eq!(isqrt(1), 1);
    assert_eq!(isqrt(3), 1);
    assert_eq!(isqrt(4), 2);
    assert_eq!(isqrt(65536 * 65536), 65536);
    assert_eq!(isqrt(65536 * 65536 - 1), 65535);
}

#[test]
fn fallback_voice_id_packs_channel_and_note() {
    assert_eq!(compute_fallback_voice_id(60, 0), 60);
    assert_eq!(compute_fallback_voice_id(60, 1), 65536 + 60);
    assert_eq!(compute_fallback_voice_id(0, 15), 15 * 65536);
}

#[test]
fn note_to_frequency_anchored_at_a4() {
    // Note 69 is exactly 440 Hz.
    assert_eq!(freq_mhz_of_cents(6900), 440000);
    // Note 81 is one octave above.
    assert_eq!(freq_mhz_of_cents(8100), 880000);
    // The lowest MIDI note sits just above 8.17 Hz.
    assert_eq!(freq_mhz_of_cents(0), 8175);
    // The top of the range is close to 12543.85 Hz.
    assert_eq!(freq_mhz_of_cents(12700), 12543853);
}

#[test]
fn cents_clamping() {
    assert_eq!(clamped_cents(69, 0), 6900);
    assert_eq!(clamped_cents(60, 250), 6250);
    assert_eq!(clamped_cents(60, -7000), 0);
    assert_eq!(clamped_cents(127, 2000), 12700);
}

#[test]
fn identity_biquad_passes_sound_through() {
    let mut f = Biquad::new(BiquadCoefficients::identity());
    let (l, r) = f.process(12345, -6789);
    assert_eq!(l, 12345);
    assert_eq!(r, -6789);
    assert_eq!(f.s1, (0, 0));
    assert_eq!(f.s2, (0, 0));
    let (l2, r2) = f.process(i64::MAX, i64::MIN);
    assert_eq!(l2, i64::MAX);
    assert_eq!(r2, i64::MIN);
}

#[test]
fn notch_coefficients_at_quarter_sample_rate() {
    // At 12 kHz on a 48 kHz clock the normalized angle is a quarter turn,
    // where the sine table is exact: with q = 2 the bandwidth term alpha is
    // exactly 0.25.
    let c = BiquadCoefficients::notch(48000, 12000000, 2 * FX_ONE);
    assert_eq!(c.b0, 52428);
    assert_eq!(c.b1, 0);
    assert_eq!(c.b2, 52428);
    assert_eq!(c.a1, 0);
    assert_eq!(c.a2, 39321);
}

#[test]
fn peaking_reconfiguration_keeps_feedback_state() {
    let mut f = Biquad::new(BiquadCoefficients::identity());
    f.set_peak(44100, 1000000, 4 * FX_ONE, 10 * FX_ONE);
    let _ = f.process(40000, -40000);
    let s1 = f.s1;
    let s2 = f.s2;
    let c = f.coefficients;
    // Reconfiguring with identical parameters repeatedly changes nothing
    // and never touches the feedback registers.
    f.set_peak(44100, 1000000, 4 * FX_ONE, 10 * FX_ONE);
    f.set_peak(44100, 1000000, 4 * FX_ONE, 10 * FX_ONE);
    assert_eq!(f.s1, s1);
    assert_eq!(f.s2, s2);
    assert_eq!(f.coefficients, c);
    assert_eq!(f.frequency, 1000000);
}

#[test]
fn bandpass_deterministic() {
    let a = BiquadCoefficients::bandpass(44100, 2000000, 3 * FX_ONE);
    let b = BiquadCoefficients::bandpass(44100, 2000000, 3 * FX_ONE);
    assert_eq!(a, b);
    // A bandpass has no direct b1 term.
    assert_eq!(a.b1, 0);
}

#[test]
fn smoother_linear_ramp_snaps_to_target() {
    let mut s = Smoother::settled(0);
    // 2 ms at 1 kHz is two steps toward the target.
    s.set_target(1000, 2 * FX_ONE, FX_ONE);
    assert_eq!(s.steps_left, 2);
    assert_eq!(s.next(), 32768);
    assert_eq!(s.next(), FX_ONE);
    assert_eq!(s.next(), FX_ONE);
    assert_eq!(s.steps_left, 0);
}

#[test]
fn smoother_release_reaches_exact_zero() {
    let mut s = Smoother::settled(FX_ONE);
    // 88 steps down to zero: truncation leaves a remainder that the final
    // snap clears exactly.
    s.set_target(44100, 2 * FX_ONE, 0);
    assert_eq!(s.steps_left, 88);
    let mut last = FX_ONE;
    for _ in 0..88 {
        last = s.next();
    }
    assert_eq!(last, 0);
    assert_eq!(s.next(), 0);
}

#[test]
fn smoother_reset_jumps_immediately() {
    let mut s = Smoother::settled(100);
    s.set_target(1000, 2000 * FX_ONE, FX_ONE);
    s.reset(0);
    assert_eq!(s.current, 0);
    assert_eq!(s.target, 0);
    assert_eq!(s.steps_left, 0);
}

#[test]
fn biquad_reset_clears_state_but_keeps_coefficients() {
    let mut f = Biquad::new(BiquadCoefficients::notch(48000, 12000000, 2 * FX_ONE));
    let _ = f.process(50000, -50000);
    assert_ne!(f.s2, (0, 0));
    let c = f.coefficients;
    f.reset();
    assert_eq!(f.s1, (0, 0));
    assert_eq!(f.s2, (0, 0));
    assert_eq!(f.coefficients, c);
}

#[test]
fn smoother_next_block_fills_prefix_only() {
    let mut s = Smoother::settled(0);
    s.set_target(1000, 4 * FX_ONE, 4000);
    let mut buf: Vec<i64> = vec![-1; 6];
    s.next_block(&mut buf, 4);
    assert_eq!(buf, vec![1000, 2000, 3000, 4000, -1, -1]);
    assert_eq!(s.current, 4000);
    assert_eq!(s.steps_left, 0);
}
