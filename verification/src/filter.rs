//! The Filter Unit: a two-pole biquad in transposed direct form II, with
//! coefficient constructors for the peaking-bell, notch and bandpass
//! responses.
//!
//! Coefficients, feedback state and samples are Q47.16 fixed-point values
//! (see `fixed`). A filter processes a stereo pair per call; the two channels
//! share coefficients and keep independent feedback registers, mirroring a
//! two-lane vector filter.

use vstd::prelude::*;

use crate::fixed::fx_add;
use crate::fixed::fx_div;
use crate::fixed::fx_div_spec;
use crate::fixed::fx_mul;
use crate::fixed::fx_mul_spec;
use crate::fixed::fx_sat;
use crate::fixed::fx_sub;
use crate::fixed::fx_tdiv;
use crate::fixed::FX_ONE;

verus! {

/// Half pi in Q16.
pub const HALF_PI_Q16: u64 = 102943;

/// Pi in Q16; kept exactly twice `HALF_PI_Q16` so angle folding is exact.
pub const PI_Q16: u64 = 2 * HALF_PI_Q16;

/// Two pi in Q16, exactly four times `HALF_PI_Q16`.
pub const TAU_Q16: u64 = 4 * HALF_PI_Q16;

/// log2(10) in Q16.
pub const LOG2_10_Q16: i64 = 217706;

/// Which of the two supported filter responses a voice's bank is set to.
#[derive(Clone, Copy, PartialEq, Eq, Structural, Debug)]
pub enum FilterMode {
    Peak,
    Notch,
}

/// The prenormalized coefficients `[b0, b1, b2, a1, a2]` for [`Biquad`],
/// i.e. already divided by `a0`.
#[derive(Clone, Copy, PartialEq, Eq, Structural, Debug)]
pub struct BiquadCoefficients {
    pub b0: i64,
    pub b1: i64,
    pub b2: i64,
    pub a1: i64,
    pub a2: i64,
}

/// A two-pole filter: coefficients plus two stereo feedback registers.
/// `frequency` remembers the last configured center frequency in millihertz
/// (zero while the filter is still an identity), for the display bridge.
#[derive(Clone, Copy, Debug)]
pub struct Biquad {
    pub coefficients: BiquadCoefficients,
    pub s1: (i64, i64),
    pub s2: (i64, i64),
    pub frequency: u64,
}

/// The normalized angular frequency `tau * frequency / sample_rate`, in Q16,
/// with the frequency in millihertz.
pub open spec fn spec_omega_q16(sample_rate: int, frequency_mhz: int) -> int {
    ((TAU_Q16 as int) * frequency_mhz) / (sample_rate * 1000)
}

/// Rational sine approximation on `[0, pi]`, in Q16.
pub open spec fn spec_sin_q16(x: int) -> int {
    let y = x * (PI_Q16 as int - x);
    (16 * y * 65536) / (5 * (PI_Q16 as int) * (PI_Q16 as int) - 4 * y)
}

/// Cosine on `[0, pi]`, folded onto the sine approximation, in Q16.
pub open spec fn spec_cos_q16(x: int) -> int {
    if x <= HALF_PI_Q16 as int {
        spec_sin_q16(HALF_PI_Q16 as int - x)
    } else {
        -spec_sin_q16(x - HALF_PI_Q16 as int)
    }
}

/// `2^t` for `t` in `[0, 1)` given in Q16, by a quadratic fit that is exact
/// at both endpoints.
pub open spec fn spec_exp2_frac_q16(t: int) -> int {
    fx_sat(FX_ONE as int + fx_mul_spec(t, fx_sat(42735 + fx_mul_spec(t, 22801))))
}

/// `10^(db/40)` for `db` in `[0, 40]` given in Q16: the amplitude factor of
/// a peaking bell gain.
pub open spec fn spec_gain_amp_q16(gain_db: int) -> int {
    let w = fx_mul_spec(fx_div_spec(gain_db, 40 * (FX_ONE as int)), LOG2_10_Q16 as int);
    let whole = w / FX_ONE as int;
    let frac = w % FX_ONE as int;
    let base = spec_exp2_frac_q16(frac);
    if whole == 0 {
        base
    } else if whole == 1 {
        2 * base
    } else if whole == 2 {
        4 * base
    } else {
        8 * base
    }
}

fn omega_q16(sample_rate: u32, frequency_mhz: u64) -> (r: u64)
    requires
        sample_rate > 0,
        frequency_mhz < 500 * sample_rate,
    ensures
        r == spec_omega_q16(sample_rate as int, frequency_mhz as int),
        r < PI_Q16,
{
    proof {
        assert((TAU_Q16 as int) * (frequency_mhz as int) <= (TAU_Q16 as int) * (500 * (sample_rate as int)
            - 1)) by (nonlinear_arith)
            requires
                (frequency_mhz as int) <= 500 * (sample_rate as int) - 1,
        ;
        assert((TAU_Q16 as int) * (500 * (sample_rate as int) - 1) < u64::MAX) by (nonlinear_arith)
            requires
                (sample_rate as int) <= u32::MAX as int,
        ;
        assert((TAU_Q16 as int) * (frequency_mhz as int) < (PI_Q16 as int) * ((sample_rate as int) * 1000))
            by (nonlinear_arith)
            requires
                (frequency_mhz as int) < 500 * (sample_rate as int),
                TAU_Q16 == 2 * PI_Q16,
                sample_rate > 0,
        ;
        assert(((TAU_Q16 as int) * (frequency_mhz as int)) / ((sample_rate as int) * 1000) < PI_Q16 as int)
            by (nonlinear_arith)
            requires
                (TAU_Q16 as int) * (frequency_mhz as int) < (PI_Q16 as int) * ((sample_rate as int) * 1000),
                (sample_rate as int) * 1000 > 0,
                (TAU_Q16 as int) * (frequency_mhz as int) >= 0,
        ;
    }
    (TAU_Q16 * frequency_mhz) / ((sample_rate as u64) * 1000)
}

fn sin_q16(x: u64) -> (r: u64)
    requires
        x <= PI_Q16,
    ensures
        r == spec_sin_q16(x as int),
        r <= FX_ONE,
{
    proof {
        assert((x as int) * (PI_Q16 as int - x as int) <= (HALF_PI_Q16 as int) * (HALF_PI_Q16 as int))
            by (nonlinear_arith)
            requires
                0 <= (x as int) <= PI_Q16 as int,
                PI_Q16 == 2 * HALF_PI_Q16,
        ;
        assert((x as int) * (PI_Q16 as int - x as int) >= 0) by (nonlinear_arith)
            requires
                0 <= (x as int) <= PI_Q16 as int,
        ;
    }
    let y: u64 = x * (PI_Q16 - x);
    let num: u64 = 16 * y * 65536;
    let den: u64 = 5 * PI_Q16 * PI_Q16 - 4 * y;
    proof {
        assert((num as int) <= (FX_ONE as int) * (den as int)) by (nonlinear_arith)
            requires
                num == 16 * (y as int) * 65536,
                den == 5 * (PI_Q16 as int) * (PI_Q16 as int) - 4 * (y as int),
                (y as int) <= (HALF_PI_Q16 as int) * (HALF_PI_Q16 as int),
                PI_Q16 == 2 * HALF_PI_Q16,
                FX_ONE == 65536,
        ;
        assert(num as int / (den as int) <= FX_ONE as int) by (nonlinear_arith)
            requires
                (num as int) <= (FX_ONE as int) * (den as int),
                (den as int) > 0,
                (num as int) >= 0,
        ;
    }
    num / den
}

fn cos_q16(x: u64) -> (r: i64)
    requires
        x <= PI_Q16,
    ensures
        r == spec_cos_q16(x as int),
        -FX_ONE <= r <= FX_ONE,
{
    if x <= HALF_PI_Q16 {
        let s: u64 = sin_q16(HALF_PI_Q16 - x);
        s as i64
    } else {
        let s: u64 = sin_q16(x - HALF_PI_Q16);
        -(s as i64)
    }
}

fn gain_amp_q16(gain_db: i64) -> (r: i64)
    requires
        0 <= gain_db <= 40 * FX_ONE,
    ensures
        r == spec_gain_amp_q16(gain_db as int),
        FX_ONE <= r,
{
    let z: i64 = fx_div(gain_db, 40 * FX_ONE);
    assert(0 <= z <= FX_ONE) by {
        assert(0 <= ((gain_db as int) * (FX_ONE as int)) / (40 * (FX_ONE as int)) <= FX_ONE as int)
            by (nonlinear_arith)
            requires
                0 <= (gain_db as int) <= 40 * (FX_ONE as int),
                FX_ONE == 65536,
        ;
    };
    let w: i64 = fx_mul(z, LOG2_10_Q16);
    assert(0 <= w <= LOG2_10_Q16) by {
        assert(0 <= ((z as int) * (LOG2_10_Q16 as int)) / (FX_ONE as int) <= LOG2_10_Q16 as int)
            by (nonlinear_arith)
            requires
                0 <= (z as int) <= FX_ONE as int,
                FX_ONE == 65536,
                LOG2_10_Q16 == 217706,
        ;
    };
    let whole: i64 = w / FX_ONE;
    let frac: i64 = w % FX_ONE;
    let c: i64 = fx_add(42735, fx_mul(frac, 22801));
    let base: i64 = fx_add(FX_ONE, fx_mul(frac, c));
    assert(FX_ONE <= base <= 2 * FX_ONE) by {
        assert(0 <= ((frac as int) * 22801) / (FX_ONE as int) <= 22801) by (nonlinear_arith)
            requires
                0 <= (frac as int) < FX_ONE as int,
                FX_ONE == 65536,
        ;
        assert(0 <= ((frac as int) * (c as int)) / (FX_ONE as int) <= FX_ONE as int)
            by (nonlinear_arith)
            requires
                0 <= (frac as int) < FX_ONE as int,
                0 <= (c as int) <= FX_ONE as int,
                FX_ONE == 65536,
        ;
    };
    if whole == 0 {
        base
    } else if whole == 1 {
        2 * base
    } else if whole == 2 {
        4 * base
    } else {
        proof {
            assert(whole == 3);
        }
        8 * base
    }
}

impl BiquadCoefficients {
    /// Filter coefficients that pass the sound through unchanged.
    pub open spec fn spec_identity() -> BiquadCoefficients {
        BiquadCoefficients { b0: FX_ONE as i64, b1: 0, b2: 0, a1: 0, a2: 0 }
    }

    /// Coefficients that would cause the sound to be passed through as is.
    pub fn identity() -> (r: BiquadCoefficients)
        ensures
            r == BiquadCoefficients::spec_identity(),
    {
        BiquadCoefficients { b0: FX_ONE, b1: 0, b2: 0, a1: 0, a2: 0 }
    }
}

} // verus!

verus! {

/// `alpha = sin(omega) / (2 q)`, the cookbook bandwidth term, in Q16.
pub open spec fn spec_alpha_q16(sin_omega: int, q: int) -> int {
    fx_div_spec(sin_omega, fx_sat(2 * q))
}

/// The peaking-bell coefficients, prenormalized by `a0 = 1 + alpha / A`.
pub open spec fn spec_peaking_eq(
    sample_rate: int,
    frequency_mhz: int,
    q: int,
    gain_db: int,
) -> BiquadCoefficients {
    let omega = spec_omega_q16(sample_rate, frequency_mhz);
    let sin_omega = spec_sin_q16(omega);
    let cos_omega = spec_cos_q16(omega);
    let amp = spec_gain_amp_q16(gain_db);
    let alpha = spec_alpha_q16(sin_omega, q);
    let a0 = fx_sat(FX_ONE as int + fx_div_spec(alpha, amp));
    BiquadCoefficients {
        b0: fx_div_spec(fx_sat(FX_ONE as int + fx_mul_spec(alpha, amp)), a0) as i64,
        b1: fx_div_spec(-2 * cos_omega, a0) as i64,
        b2: fx_div_spec(fx_sat(FX_ONE as int - fx_mul_spec(alpha, amp)), a0) as i64,
        a1: fx_div_spec(-2 * cos_omega, a0) as i64,
        a2: fx_div_spec(fx_sat(FX_ONE as int - fx_div_spec(alpha, amp)), a0) as i64,
    }
}

/// The notch coefficients, prenormalized by `a0 = 1 + alpha`.
pub open spec fn spec_notch(sample_rate: int, frequency_mhz: int, q: int) -> BiquadCoefficients {
    let omega = spec_omega_q16(sample_rate, frequency_mhz);
    let sin_omega = spec_sin_q16(omega);
    let cos_omega = spec_cos_q16(omega);
    let alpha = spec_alpha_q16(sin_omega, q);
    let a0 = fx_sat(FX_ONE as int + alpha);
    BiquadCoefficients {
        b0: fx_div_spec(FX_ONE as int, a0) as i64,
        b1: fx_div_spec(-2 * cos_omega, a0) as i64,
        b2: fx_div_spec(FX_ONE as int, a0) as i64,
        a1: fx_div_spec(-2 * cos_omega, a0) as i64,
        a2: fx_div_spec(fx_sat(FX_ONE as int - alpha), a0) as i64,
    }
}

/// The bandpass coefficients, prenormalized by `a0 = 1 + alpha`.
pub open spec fn spec_bandpass(sample_rate: int, frequency_mhz: int, q: int) -> BiquadCoefficients {
    let omega = spec_omega_q16(sample_rate, frequency_mhz);
    let sin_omega = spec_sin_q16(omega);
    let cos_omega = spec_cos_q16(omega);
    let alpha = spec_alpha_q16(sin_omega, q);
    let a0 = fx_sat(FX_ONE as int + alpha);
    BiquadCoefficients {
        b0: fx_div_spec(fx_mul_spec(q, alpha), a0) as i64,
        b1: 0,
        b2: fx_div_spec(fx_sat(-fx_mul_spec(q, alpha)), a0) as i64,
        a1: fx_div_spec(-2 * cos_omega, a0) as i64,
        a2: fx_div_spec(fx_sat(FX_ONE as int - alpha), a0) as i64,
    }
}

proof fn lemma_div_nonneg(a: int, b: int)
    requires
        a >= 0,
        b > 0,
    ensures
        fx_div_spec(a, b) >= 0,
        fx_tdiv(a * (FX_ONE as int), b) >= 0,
{
    assert(a * (FX_ONE as int) >= 0) by (nonlinear_arith)
        requires
            a >= 0,
    ;
    assert((a * (FX_ONE as int)) / b >= 0) by (nonlinear_arith)
        requires
            a * (FX_ONE as int) >= 0,
            b > 0,
    ;
}

fn alpha_q16(sin_omega: i64, q: i64) -> (r: i64)
    requires
        q > 0,
        0 <= sin_omega,
    ensures
        r == spec_alpha_q16(sin_omega as int, q as int),
        r >= 0,
{
    let q2: i64 = fx_add(q, q);
    let r = fx_div(sin_omega, q2);
    proof {
        lemma_div_nonneg(sin_omega as int, q2 as int);
    }
    r
}

impl BiquadCoefficients {
    /// The cookbook peaking-bell response: a boost of `gain_db` decibels
    /// around `frequency_mhz`, `q` wide, all in Q16 (frequency in
    /// millihertz).
    pub fn peaking_eq(sample_rate: u32, frequency_mhz: u64, q: i64, gain_db: i64) -> (r:
        BiquadCoefficients)
        requires
            sample_rate > 0,
            0 < frequency_mhz < 500 * sample_rate,
            q > 0,
            0 <= gain_db <= 40 * FX_ONE,
        ensures
            r == spec_peaking_eq(sample_rate as int, frequency_mhz as int, q as int,
                gain_db as int),
    {
        let omega: u64 = omega_q16(sample_rate, frequency_mhz);
        let sin_omega: u64 = sin_q16(omega);
        let cos_omega: i64 = cos_q16(omega);
        let neg_two_cos: i64 = -2 * cos_omega;
        let amp: i64 = gain_amp_q16(gain_db);
        let alpha: i64 = alpha_q16(sin_omega as i64, q);
        let alpha_over_amp: i64 = fx_div(alpha, amp);
        proof {
            lemma_div_nonneg(alpha as int, amp as int);
        }
        let a0: i64 = fx_add(FX_ONE, alpha_over_amp);
        let alpha_amp: i64 = fx_mul(alpha, amp);
        BiquadCoefficients {
            b0: fx_div(fx_add(FX_ONE, alpha_amp), a0),
            b1: fx_div(neg_two_cos, a0),
            b2: fx_div(fx_sub(FX_ONE, alpha_amp), a0),
            a1: fx_div(neg_two_cos, a0),
            a2: fx_div(fx_sub(FX_ONE, alpha_over_amp), a0),
        }
    }

    /// The cookbook notch response centered on `frequency_mhz`, `q` wide.
    pub fn notch(sample_rate: u32, frequency_mhz: u64, q: i64) -> (r: BiquadCoefficients)
        requires
            sample_rate > 0,
            0 < frequency_mhz < 500 * sample_rate,
            q > 0,
        ensures
            r == spec_notch(sample_rate as int, frequency_mhz as int, q as int),
    {
        let omega: u64 = omega_q16(sample_rate, frequency_mhz);
        let sin_omega: u64 = sin_q16(omega);
        let cos_omega: i64 = cos_q16(omega);
        let neg_two_cos: i64 = -2 * cos_omega;
        let alpha: i64 = alpha_q16(sin_omega as i64, q);
        let a0: i64 = fx_add(FX_ONE, alpha);
        BiquadCoefficients {
            b0: fx_div(FX_ONE, a0),
            b1: fx_div(neg_two_cos, a0),
            b2: fx_div(FX_ONE, a0),
            a1: fx_div(neg_two_cos, a0),
            a2: fx_div(fx_sub(FX_ONE, alpha), a0),
        }
    }

    /// The cookbook bandpass response centered on `frequency_mhz`, `q` wide.
    pub fn bandpass(sample_rate: u32, frequency_mhz: u64, q: i64) -> (r: BiquadCoefficients)
        requires
            sample_rate > 0,
            0 < frequency_mhz < 500 * sample_rate,
            q > 0,
        ensures
            r == spec_bandpass(sample_rate as int, frequency_mhz as int, q as int),
    {
        let omega: u64 = omega_q16(sample_rate, frequency_mhz);
        let sin_omega: u64 = sin_q16(omega);
        let cos_omega: i64 = cos_q16(omega);
        let neg_two_cos: i64 = -2 * cos_omega;
        let alpha: i64 = alpha_q16(sin_omega as i64, q);
        let a0: i64 = fx_add(FX_ONE, alpha);
        let q_alpha: i64 = fx_mul(q, alpha);
        BiquadCoefficients {
            b0: fx_div(q_alpha, a0),
            b1: 0,
            b2: fx_div(fx_sub(0, q_alpha), a0),
            a1: fx_div(neg_two_cos, a0),
            a2: fx_div(fx_sub(FX_ONE, alpha), a0),
        }
    }
}

/// The output sample of one filter step: `b0 * x + s1`.
pub open spec fn spec_biquad_out(c: BiquadCoefficients, s1: int, x: int) -> int {
    fx_sat(fx_mul_spec(c.b0 as int, x) + s1)
}

/// The first feedback register after one step: `b1 * x - a1 * out + s2`.
pub open spec fn spec_biquad_s1(c: BiquadCoefficients, x: int, out: int, s2: int) -> int {
    fx_sat(fx_sat(fx_mul_spec(c.b1 as int, x) - fx_mul_spec(c.a1 as int, out)) + s2)
}

/// The second feedback register after one step: `b2 * x - a2 * out`.
pub open spec fn spec_biquad_s2(c: BiquadCoefficients, x: int, out: int) -> int {
    fx_sat(fx_mul_spec(c.b2 as int, x) - fx_mul_spec(c.a2 as int, out))
}

impl Biquad {
    /// A filter with the given coefficients and cleared feedback registers.
    pub fn new(biquad_coefficients: BiquadCoefficients) -> (r: Biquad)
        ensures
            r.coefficients == biquad_coefficients,
            r.s1 == (0i64, 0i64),
            r.s2 == (0i64, 0i64),
            r.frequency == 0,
    {
        Biquad { coefficients: biquad_coefficients, s1: (0, 0), s2: (0, 0), frequency: 0 }
    }

    /// Process one stereo sample through the transposed direct-form
    /// recurrence, updating the two feedback registers.
    pub fn process(&mut self, left: i64, right: i64) -> (out: (i64, i64))
        ensures
            out.0 as int == spec_biquad_out(old(self).coefficients, old(self).s1.0 as int,
                left as int),
            out.1 as int == spec_biquad_out(old(self).coefficients, old(self).s1.1 as int,
                right as int),
            final(self).s1.0 as int == spec_biquad_s1(old(self).coefficients, left as int,
                out.0 as int, old(self).s2.0 as int),
            final(self).s1.1 as int == spec_biquad_s1(old(self).coefficients, right as int,
                out.1 as int, old(self).s2.1 as int),
            final(self).s2.0 as int == spec_biquad_s2(old(self).coefficients, left as int,
                out.0 as int),
            final(self).s2.1 as int == spec_biquad_s2(old(self).coefficients, right as int,
                out.1 as int),
            final(self).coefficients == old(self).coefficients,
            final(self).frequency == old(self).frequency,
    {
        let c = self.coefficients;
        let out_l: i64 = fx_add(fx_mul(c.b0, left), self.s1.0);
        let out_r: i64 = fx_add(fx_mul(c.b0, right), self.s1.1);
        self.s1 = (
            fx_add(fx_sub(fx_mul(c.b1, left), fx_mul(c.a1, out_l)), self.s2.0),
            fx_add(fx_sub(fx_mul(c.b1, right), fx_mul(c.a1, out_r)), self.s2.1),
        );
        self.s2 = (
            fx_sub(fx_mul(c.b2, left), fx_mul(c.a2, out_l)),
            fx_sub(fx_mul(c.b2, right), fx_mul(c.a2, out_r)),
        );
        (out_l, out_r)
    }

    /// Zero the feedback registers; used when a voice slot is reused for a
    /// new note, so no state leaks between unrelated notes.
    pub fn reset(&mut self)
        ensures
            final(self).s1 == (0i64, 0i64),
            final(self).s2 == (0i64, 0i64),
            final(self).coefficients == old(self).coefficients,
            final(self).frequency == old(self).frequency,
    {
        self.s1 = (0, 0);
        self.s2 = (0, 0);
    }

    /// The filter after a peaking-bell reconfiguration: new coefficients and
    /// remembered frequency, untouched feedback registers.
    pub open spec fn spec_set_peak(
        self,
        sample_rate: u32,
        frequency_mhz: u64,
        q: i64,
        gain_db: i64,
    ) -> Biquad {
        Biquad {
            coefficients: spec_peaking_eq(sample_rate as int, frequency_mhz as int, q as int,
                gain_db as int),
            s1: self.s1,
            s2: self.s2,
            frequency: frequency_mhz,
        }
    }

    /// The filter after a notch reconfiguration.
    pub open spec fn spec_set_notch(self, sample_rate: u32, frequency_mhz: u64, q: i64) -> Biquad {
        Biquad {
            coefficients: spec_notch(sample_rate as int, frequency_mhz as int, q as int),
            s1: self.s1,
            s2: self.s2,
            frequency: frequency_mhz,
        }
    }

    /// Reconfigure as a peaking bell. Coefficient changes must not reset
    /// filter history, so the feedback registers are left untouched.
    pub fn set_peak(&mut self, sample_rate: u32, frequency_mhz: u64, q: i64, gain_db: i64)
        requires
            sample_rate > 0,
            0 < frequency_mhz < 500 * sample_rate,
            q > 0,
            0 <= gain_db <= 40 * FX_ONE,
        ensures
            *final(self) == old(self).spec_set_peak(sample_rate, frequency_mhz, q, gain_db),
    {
        self.coefficients = BiquadCoefficients::peaking_eq(sample_rate, frequency_mhz, q, gain_db);
        self.frequency = frequency_mhz;
    }

    /// Reconfigure as a notch. The feedback registers are left untouched.
    pub fn set_notch(&mut self, sample_rate: u32, frequency_mhz: u64, q: i64)
        requires
            sample_rate > 0,
            0 < frequency_mhz < 500 * sample_rate,
            q > 0,
        ensures
            *final(self) == old(self).spec_set_notch(sample_rate, frequency_mhz, q),
    {
        self.coefficients = BiquadCoefficients::notch(sample_rate, frequency_mhz, q);
        self.frequency = frequency_mhz;
    }
}

impl Default for Biquad {
    /// Before setting constants the filter should just act as an identity
    /// function.
    fn default() -> (r: Biquad)
        ensures
            r.coefficients == BiquadCoefficients::spec_identity(),
            r.s1 == (0i64, 0i64),
            r.s2 == (0i64, 0i64),
            r.frequency == 0,
    {
        Biquad::new(BiquadCoefficients::identity())
    }
}

/// Reconfiguring a filter with identical parameters repeatedly is idempotent
/// and never alters the feedback state: only `process` and `reset` mutate the
/// feedback registers.
pub proof fn lemma_reconfigure_idempotent(
    b: Biquad,
    sample_rate: u32,
    frequency_mhz: u64,
    q: i64,
    gain_db: i64,
)
    ensures
        b.spec_set_peak(sample_rate, frequency_mhz, q, gain_db).spec_set_peak(sample_rate,
            frequency_mhz, q, gain_db) == b.spec_set_peak(sample_rate, frequency_mhz, q, gain_db),
        b.spec_set_peak(sample_rate, frequency_mhz, q, gain_db).s1 == b.s1,
        b.spec_set_peak(sample_rate, frequency_mhz, q, gain_db).s2 == b.s2,
        b.spec_set_notch(sample_rate, frequency_mhz, q).spec_set_notch(sample_rate, frequency_mhz,
            q) == b.spec_set_notch(sample_rate, frequency_mhz, q),
        b.spec_set_notch(sample_rate, frequency_mhz, q).s1 == b.s1,
        b.spec_set_notch(sample_rate, frequency_mhz, q).s2 == b.s2,
{
}

} // verus!
