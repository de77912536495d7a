//! One polyphonic voice: identity, fundamental frequency, velocity scalar,
//! an ordered bank of filters tuned to harmonics of the fundamental, an
//! amplitude envelope, and the releasing flag.

use vstd::prelude::*;

use crate::envelope::Smoother;
use crate::filter::Biquad;
use crate::filter::BiquadCoefficients;
use crate::filter::FilterMode;
use crate::filter::spec_biquad_out;
use crate::filter::spec_biquad_s1;
use crate::filter::spec_biquad_s2;
use crate::fixed::fx_mul;
use crate::fixed::fx_mul_spec;
use crate::fixed::lemma_fx_mul_unit;
use crate::fixed::FX_ONE;
use crate::params::EngineParams;
use crate::tuning::MAX_FREQ_MHZ;
use crate::NUM_FILTERS;

verus! {

/// One active note.
#[derive(Clone, Debug)]
pub struct Voice {
    /// Host-supplied or synthesized stable identifier.
    pub id: i32,
    /// MIDI channel.
    pub channel: u8,
    /// MIDI note.
    pub note: u8,
    /// Current fundamental frequency in millihertz; retune events move it.
    pub frequency: u64,
    /// Monotonic allocation sequence number, the voice-stealing order.
    pub internal_voice_id: u64,
    /// Square root of the note velocity, Q16 in `[0, 1]`.
    pub velocity_sqrt: i64,
    /// One filter per harmonic band.
    pub filters: Vec<Biquad>,
    /// Set on note-off; the envelope then decays to zero.
    pub releasing: bool,
    /// Attack/release amplitude ramp, Q16 in `[0, 1]`.
    pub amp_envelope: Smoother,
}

/// A pass-through filter, the state every band starts from.
pub open spec fn spec_default_biquad() -> Biquad {
    Biquad {
        coefficients: BiquadCoefficients::spec_identity(),
        s1: (0i64, 0i64),
        s2: (0i64, 0i64),
        frequency: 0u64,
    }
}

/// The filter quality derived from the band-width parameter: 100% width
/// maps to a q of 40, 300% to a q of 1.
pub open spec fn spec_q_q16(band_width_percent: int) -> int {
    40 * (FX_ONE as int) - 39 * ((band_width_percent - 100 * (FX_ONE as int)) / 200)
}

/// Compute the filter quality from the band-width parameter.
pub fn q_q16(band_width_percent: i64) -> (r: i64)
    requires
        100 * FX_ONE <= band_width_percent <= 300 * FX_ONE,
    ensures
        r == spec_q_q16(band_width_percent as int),
        FX_ONE <= r <= 40 * FX_ONE,
{
    let norm: i64 = (((band_width_percent - 100 * FX_ONE) as u64) / 200) as i64;
    40 * FX_ONE - 39 * norm
}

/// Exponential gain falloff by band distance from the fundamental:
/// `exp(-i/4)` in Q16 for band `i`.
pub open spec fn spec_falloff_q16(i: int) -> int {
    if i <= 0 {
        65536
    } else if i == 1 {
        51040
    } else if i == 2 {
        39749
    } else if i == 3 {
        30956
    } else if i == 4 {
        24112
    } else if i == 5 {
        18778
    } else if i == 6 {
        14624
    } else {
        11389
    }
}

/// The gain falloff for band `i`.
pub fn falloff_q16(i: usize) -> (r: i64)
    requires
        i < NUM_FILTERS,
    ensures
        r == spec_falloff_q16(i as int),
        0 <= r <= FX_ONE,
{
    if i == 0 {
        65536
    } else if i == 1 {
        51040
    } else if i == 2 {
        39749
    } else if i == 3 {
        30956
    } else if i == 4 {
        24112
    } else if i == 5 {
        18778
    } else if i == 6 {
        14624
    } else {
        11389
    }
}

/// Band `i` of a voice sits at harmonic `i + 1` of the fundamental.
pub open spec fn spec_band_freq(frequency: int, i: int) -> int {
    frequency * (i + 1)
}

/// Band `i` is skipped for this configuration: the safety limit is on and
/// the harmonic meets or exceeds Nyquist.
pub open spec fn spec_band_skipped(
    frequency: int,
    i: int,
    sample_rate: int,
    params: EngineParams,
) -> bool {
    params.safety_switch && spec_band_freq(frequency, i) >= 500 * sample_rate
}

/// One band of the filter chain applied to a running stereo sample: skipped
/// bands touch nothing; a configured band is retuned to its harmonic (capped
/// below Nyquist when the safety limit is off) and then processes the
/// sample.
pub open spec fn spec_band_step(
    filters: Seq<Biquad>,
    i: int,
    l: int,
    r: int,
    frequency: u64,
    amp: i64,
    sample_rate: u32,
    params: EngineParams,
) -> (Seq<Biquad>, int, int) {
    if spec_band_skipped(frequency as int, i, sample_rate as int, params) {
        (filters, l, r)
    } else {
        let freq_i = spec_band_freq(frequency as int, i);
        let freq_used = if freq_i >= 500 * (sample_rate as int) {
            500 * (sample_rate as int) - 1
        } else {
            freq_i
        };
        let f = filters[i];
        let q = spec_q_q16(params.band_width_percent as int);
        let bell = fx_mul_spec(amp as int, spec_falloff_q16(i));
        let f2 = if params.filter_mode == FilterMode::Peak {
            f.spec_set_peak(sample_rate, freq_used as u64, q as i64, bell as i64)
        } else {
            f.spec_set_notch(sample_rate, freq_used as u64, q as i64)
        };
        let ol = spec_biquad_out(f2.coefficients, f2.s1.0 as int, l);
        let or = spec_biquad_out(f2.coefficients, f2.s1.1 as int, r);
        let f3 = Biquad {
            coefficients: f2.coefficients,
            s1: (
                spec_biquad_s1(f2.coefficients, l, ol, f2.s2.0 as int) as i64,
                spec_biquad_s1(f2.coefficients, r, or, f2.s2.1 as int) as i64,
            ),
            s2: (
                spec_biquad_s2(f2.coefficients, l, ol) as i64,
                spec_biquad_s2(f2.coefficients, r, or) as i64,
            ),
            frequency: f2.frequency,
        };
        (filters.update(i, f3), ol, or)
    }
}

/// The first `n` bands of the chain applied in order.
pub open spec fn spec_chain(
    filters: Seq<Biquad>,
    n: int,
    l: int,
    r: int,
    frequency: u64,
    amp: i64,
    sample_rate: u32,
    params: EngineParams,
) -> (Seq<Biquad>, int, int)
    decreases n,
{
    if n <= 0 {
        (filters, l, r)
    } else {
        let prev = spec_chain(filters, n - 1, l, r, frequency, amp, sample_rate, params);
        spec_band_step(prev.0, n - 1, prev.1, prev.2, frequency, amp, sample_rate, params)
    }
}

/// The chain never touches a band it does not process, so the bank keeps
/// its length, and a skipped band keeps its exact filter state.
pub proof fn lemma_chain_frame(
    filters: Seq<Biquad>,
    n: int,
    l: int,
    r: int,
    frequency: u64,
    amp: i64,
    sample_rate: u32,
    params: EngineParams,
)
    requires
        n <= filters.len(),
    ensures
        spec_chain(filters, n, l, r, frequency, amp, sample_rate, params).0.len()
            == filters.len(),
        forall|i: int|
            0 <= i < filters.len() && (i >= n || spec_band_skipped(frequency as int, i,
                sample_rate as int, params)) ==> spec_chain(filters, n, l, r, frequency, amp,
                sample_rate, params).0[i] == filters[i],
    decreases n,
{
    if n > 0 {
        lemma_chain_frame(filters, n - 1, l, r, frequency, amp, sample_rate, params);
    }
}

/// The amplitude handed to band configuration for the `k`-th sample of a
/// render: global gain scaled by the velocity and the envelope.
pub open spec fn spec_amp(v: Voice, k: int, params: EngineParams) -> i64 {
    fx_mul_spec(
        fx_mul_spec(params.gain_db as int, v.velocity_sqrt as int),
        v.amp_envelope.spec_next_n((k + 1) as nat).current as int,
    ) as i64
}

/// The filter bank and both buffer channels after the first `k` samples of
/// a render over `[start, start + k)`.
pub open spec fn spec_render(
    v: Voice,
    left: Seq<i64>,
    right: Seq<i64>,
    start: int,
    k: nat,
    sample_rate: u32,
    params: EngineParams,
) -> (Seq<Biquad>, Seq<i64>, Seq<i64>)
    decreases k,
{
    if k == 0 {
        (v.filters@, left, right)
    } else {
        let prev = spec_render(v, left, right, start, (k - 1) as nat, sample_rate, params);
        let idx = start + k - 1;
        let amp = spec_amp(v, k - 1, params);
        let step = spec_chain(prev.0, NUM_FILTERS as int, prev.1[idx] as int, prev.2[idx] as int,
            v.frequency, amp, sample_rate, params);
        (step.0, prev.1.update(idx, step.1 as i64), prev.2.update(idx, step.2 as i64))
    }
}

/// A render touches only the sample range it was given and only the bands
/// it configures.
pub proof fn lemma_render_frame(
    v: Voice,
    left: Seq<i64>,
    right: Seq<i64>,
    start: int,
    k: nat,
    sample_rate: u32,
    params: EngineParams,
)
    requires
        v.filters@.len() == NUM_FILTERS,
        0 <= start,
        start + k <= left.len(),
        left.len() == right.len(),
    ensures
        ({
            let res = spec_render(v, left, right, start, k, sample_rate, params);
            &&& res.0.len() == NUM_FILTERS
            &&& res.1.len() == left.len()
            &&& res.2.len() == right.len()
            &&& forall|j: int|
                0 <= j < left.len() && !(start <= j < start + k) ==> res.1[j] == left[j]
                    && res.2[j] == right[j]
            &&& forall|i: int|
                0 <= i < NUM_FILTERS && spec_band_skipped(v.frequency as int, i,
                    sample_rate as int, params) ==> res.0[i] == v.filters@[i]
        }),
    decreases k,
{
    if k > 0 {
        lemma_render_frame(v, left, right, start, (k - 1) as nat, sample_rate, params);
        let prev = spec_render(v, left, right, start, (k - 1) as nat, sample_rate, params);
        let idx = start + k - 1;
        let amp = spec_amp(v, (k - 1) as int, params);
        lemma_chain_frame(prev.0, NUM_FILTERS as int, prev.1[idx] as int, prev.2[idx] as int,
            v.frequency, amp, sample_rate, params);
        let step = spec_chain(prev.0, NUM_FILTERS as int, prev.1[idx] as int, prev.2[idx] as int,
            v.frequency, amp, sample_rate, params);
        let res = spec_render(v, left, right, start, k, sample_rate, params);
        assert(res.0 == step.0 && res.1 == prev.1.update(idx, step.1 as i64) && res.2
            == prev.2.update(idx, step.2 as i64));
        assert forall|j: int|
            0 <= j < left.len() && !(start <= j < start + k) implies res.1[j] == left[j] && res.2[j]
            == right[j] by {
            assert(j != idx);
            assert(prev.1[j] == left[j] && prev.2[j] == right[j]);
        };
        assert forall|i: int|
            0 <= i < NUM_FILTERS && spec_band_skipped(v.frequency as int, i, sample_rate as int,
                params) implies res.0[i] == v.filters@[i] by {
            assert(step.0[i] == prev.0[i]);
            assert(prev.0[i] == v.filters@[i]);
        };
    }
}

impl Voice {
    /// A voice's internal invariant: a full filter bank, a positive bounded
    /// frequency, and unit-interval velocity and envelope values.
    pub open spec fn wf(self) -> bool {
        &&& self.filters@.len() == NUM_FILTERS
        &&& 0 < self.frequency <= MAX_FREQ_MHZ
        &&& 0 <= self.velocity_sqrt <= FX_ONE
        &&& self.amp_envelope.in_range(0, FX_ONE as int)
    }

    /// The voice-addressing rule shared by release, choke and retune: an
    /// explicit id matches exactly the voice carrying that id; without one,
    /// a voice matches by channel and note.
    pub open spec fn spec_matches(self, voice_id: Option<i32>, channel: u8, note: u8) -> bool {
        match voice_id {
            Some(id) => self.id == id,
            None => self.channel == channel && self.note == note,
        }
    }

    /// Test the shared addressing rule.
    pub fn matches(&self, voice_id: Option<i32>, channel: u8, note: u8) -> (r: bool)
        ensures
            r == self.spec_matches(voice_id, channel, note),
    {
        match voice_id {
            Some(id) => self.id == id,
            None => self.channel == channel && self.note == note,
        }
    }

    /// Drive the voice's filter bank over the samples `[start, end)` of the
    /// stereo buffer: per sample, advance the envelope, retune every
    /// non-skipped band to its harmonic with the current amplitude, and run
    /// the sample through the configured bands in series.
    pub fn render(
        &mut self,
        left: &mut Vec<i64>,
        right: &mut Vec<i64>,
        start: usize,
        end: usize,
        sample_rate: u32,
        params: EngineParams,
    )
        requires
            old(self).wf(),
            params.wf(),
            start <= end <= old(left).len(),
            old(left).len() == old(right).len(),
            0 < sample_rate <= crate::envelope::MAX_SAMPLE_RATE,
        ensures
            final(self).wf(),
            final(left).len() == old(left).len(),
            final(right).len() == old(right).len(),
            ({
                let res = spec_render(*old(self), old(left)@, old(right)@, start as int, (end
                    - start) as nat, sample_rate, params);
                &&& final(self).filters@ == res.0
                &&& final(left)@ == res.1
                &&& final(right)@ == res.2
            }),
            final(self).amp_envelope == old(self).amp_envelope.spec_next_n((end - start) as nat),
            final(self).id == old(self).id,
            final(self).channel == old(self).channel,
            final(self).note == old(self).note,
            final(self).frequency == old(self).frequency,
            final(self).internal_voice_id == old(self).internal_voice_id,
            final(self).velocity_sqrt == old(self).velocity_sqrt,
            final(self).releasing == old(self).releasing,
            forall|j: int|
                0 <= j < old(left).len() && !(start <= j < end) ==> final(left)@[j] == old(
                    left,
                )@[j] && final(right)@[j] == old(right)@[j],
            forall|i: int|
                0 <= i < NUM_FILTERS && spec_band_skipped(old(self).frequency as int, i,
                    sample_rate as int, params) ==> final(self).filters@[i] == old(
                    self,
                ).filters@[i],
    {
        let len: usize = end - start;
        let mut env_buf: Vec<i64> = Vec::new();
        let mut z: usize = 0;
        while z < len
            invariant
                env_buf.len() == z,
                z <= len,
            decreases len - z,
        {
            env_buf.push(0);
            z = z + 1;
        }
        self.amp_envelope.next_block(&mut env_buf, len);
        let ghost v0 = *old(self);
        let mut k: usize = 0;
        while k < len
            invariant
                k <= len,
                len == end - start,
                start <= end <= left.len(),
                left.len() == old(left).len(),
                right.len() == old(right).len(),
                left.len() == right.len(),
                v0.wf(),
                params.wf(),
                0 < sample_rate <= crate::envelope::MAX_SAMPLE_RATE,
                env_buf.len() == len,
                forall|i: int|
                    0 <= i < len ==> #[trigger] env_buf@[i] == v0.amp_envelope.spec_next_n(
                        (i + 1) as nat,
                    ).current,
                self.id == v0.id,
                self.channel == v0.channel,
                self.note == v0.note,
                self.frequency == v0.frequency,
                self.internal_voice_id == v0.internal_voice_id,
                self.velocity_sqrt == v0.velocity_sqrt,
                self.releasing == v0.releasing,
                self.amp_envelope == v0.amp_envelope.spec_next_n(len as nat),
                self.filters@.len() == NUM_FILTERS,
                ({
                    let res = spec_render(v0, old(left)@, old(right)@, start as int, k as nat,
                        sample_rate, params);
                    &&& self.filters@ == res.0
                    &&& left@ == res.1
                    &&& right@ == res.2
                }),
            decreases len - k,
        {
            let idx: usize = start + k;
            let amp1: i64 = fx_mul(params.gain_db, self.velocity_sqrt);
            let env_k: i64 = env_buf[k];
            proof {
                v0.amp_envelope.lemma_next_n_in_range(0, FX_ONE as int, (k + 1) as nat);
                lemma_fx_mul_unit(params.gain_db as int, v0.velocity_sqrt as int);
                lemma_fx_mul_unit(amp1 as int, env_k as int);
            }
            let amp: i64 = fx_mul(amp1, env_k);
            let ghost filters_at_k = self.filters@;
            let mut l: i64 = left[idx];
            let mut r: i64 = right[idx];
            let ghost l0 = l;
            let ghost r0 = r;
            let nyq: u64 = 500 * (sample_rate as u64);
            let mut i: usize = 0;
            while i < NUM_FILTERS
                invariant
                    i <= NUM_FILTERS,
                    v0.wf(),
                    params.wf(),
                    0 < sample_rate <= crate::envelope::MAX_SAMPLE_RATE,
                    nyq == 500 * (sample_rate as int),
                    self.id == v0.id,
                    self.channel == v0.channel,
                    self.note == v0.note,
                    self.frequency == v0.frequency,
                    self.internal_voice_id == v0.internal_voice_id,
                    self.velocity_sqrt == v0.velocity_sqrt,
                    self.releasing == v0.releasing,
                    self.amp_envelope == v0.amp_envelope.spec_next_n((end - start) as nat),
                    self.filters@.len() == NUM_FILTERS,
                    0 <= amp <= 40 * FX_ONE,
                    ({
                        let st = spec_chain(filters_at_k, i as int, l0 as int, r0 as int,
                            v0.frequency, amp, sample_rate, params);
                        &&& self.filters@ == st.0
                        &&& l as int == st.1
                        &&& r as int == st.2
                    }),
                decreases NUM_FILTERS - i,
            {
                proof {
                    assert((v0.frequency as int) * ((i + 1) as int) <= (MAX_FREQ_MHZ as int) * 8)
                        by (nonlinear_arith)
                        requires
                            0 < v0.frequency <= MAX_FREQ_MHZ,
                            0 <= (i as int) < 8,
                    ;
                    assert((v0.frequency as int) * ((i + 1) as int) >= v0.frequency as int)
                        by (nonlinear_arith)
                        requires
                            0 < v0.frequency,
                            1 <= (i + 1) as int,
                    ;
                }
                let freq_i: u64 = self.frequency * ((i as u64) + 1);
                if !(params.safety_switch && freq_i >= nyq) {
                    let freq_used: u64 = if freq_i >= nyq {
                        nyq - 1
                    } else {
                        freq_i
                    };
                    let q: i64 = q_q16(params.band_width_percent);
                    let fall: i64 = falloff_q16(i);
                    proof {
                        lemma_fx_mul_unit(amp as int, fall as int);
                    }
                    let bell: i64 = fx_mul(amp, fall);
                    let mut f: Biquad = self.filters[i];
                    match params.filter_mode {
                        FilterMode::Peak => {
                            f.set_peak(sample_rate, freq_used, q, bell);
                        },
                        FilterMode::Notch => {
                            f.set_notch(sample_rate, freq_used, q);
                        },
                    }
                    let out = f.process(l, r);
                    self.filters.set(i, f);
                    l = out.0;
                    r = out.1;
                }
                i = i + 1;
            }
            left.set(idx, l);
            right.set(idx, r);
            k = k + 1;
            proof {
                let res_prev = spec_render(v0, old(left)@, old(right)@, start as int, (k
                    - 1) as nat, sample_rate, params);
                lemma_render_frame(v0, old(left)@, old(right)@, start as int, (k - 1) as nat,
                    sample_rate, params);
                assert(res_prev.1[idx as int] == l0 && res_prev.2[idx as int] == r0);
            }
        }
        proof {
            lemma_render_frame(v0, old(left)@, old(right)@, start as int, len as nat, sample_rate,
                params);
            v0.amp_envelope.lemma_next_n_in_range(0, FX_ONE as int, len as nat);
        }
    }
}

} // verus!
