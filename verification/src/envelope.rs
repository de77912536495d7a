//! The amplitude smoother: a linear ramp toward a target value over a fixed
//! number of per-sample steps, snapping to the target exactly on the last
//! step and never overshooting it in between.
//!
//! Voices use one as their attack/release envelope; the block processor uses
//! one to smooth the global band-gain parameter.

use vstd::prelude::*;

use crate::fixed::fx_add;
use crate::fixed::fx_ramp_step;
use crate::fixed::fx_sat;
use crate::fixed::fx_tdiv;
use crate::fixed::FX_ONE;

verus! {

/// Highest sample rate the engine accepts, a machine bound that keeps the
/// ramp step count within range.
pub const MAX_SAMPLE_RATE: u32 = 10000000;

/// Longest smoothing time in Q16 milliseconds (two seconds).
pub const MAX_SMOOTH_MS_Q16: i64 = 2000 * FX_ONE;

/// A linear-ramp parameter smoother.
#[derive(Clone, Copy, Debug)]
pub struct Smoother {
    /// The value the ramp is currently at.
    pub current: i64,
    /// The value the ramp is heading toward.
    pub target: i64,
    /// Per-step increment, truncated toward zero.
    pub step: i64,
    /// Steps until the ramp snaps to the target; zero means settled.
    pub steps_left: u64,
}

/// How many per-sample steps a smoothing time of `time_ms_q16` spans at
/// `sample_rate`, never less than one.
pub open spec fn spec_ramp_steps(time_ms_q16: int, sample_rate: int) -> int {
    let steps = ((time_ms_q16 * sample_rate) / 1000) / (FX_ONE as int);
    if steps < 1 {
        1
    } else {
        steps
    }
}

impl Smoother {
    /// The smoother one step later: move by `step` but never past the
    /// target, and snap to the target exactly when the last step is taken.
    pub open spec fn spec_next(self) -> Smoother {
        if self.steps_left == 0 {
            self
        } else if self.steps_left == 1 {
            Smoother { current: self.target, target: self.target, step: self.step, steps_left: 0 }
        } else {
            let moved = fx_sat(self.current + self.step);
            let clamped = if self.step >= 0 {
                if moved > self.target {
                    self.target as int
                } else {
                    moved
                }
            } else {
                if moved < self.target {
                    self.target as int
                } else {
                    moved
                }
            };
            Smoother {
                current: clamped as i64,
                target: self.target,
                step: self.step,
                steps_left: (self.steps_left - 1) as u64,
            }
        }
    }

    /// The smoother after `n` steps.
    pub open spec fn spec_next_n(self, n: nat) -> Smoother
        decreases n,
    {
        if n == 0 {
            self
        } else {
            self.spec_next_n((n - 1) as nat).spec_next()
        }
    }

    /// Both ends of the ramp lie within `[lo, hi]`.
    pub open spec fn in_range(self, lo: int, hi: int) -> bool {
        lo <= self.current <= hi && lo <= self.target <= hi
    }

    /// A settled smoother resting at `value`.
    pub fn settled(value: i64) -> (r: Smoother)
        ensures
            r == (Smoother { current: value, target: value, step: 0i64, steps_left: 0u64 }),
    {
        Smoother { current: value, target: value, step: 0, steps_left: 0 }
    }

    /// Jump to `value` immediately, forgetting any ramp in progress.
    pub fn reset(&mut self, value: i64)
        ensures
            *final(self) == (Smoother {
                current: value,
                target: value,
                step: 0i64,
                steps_left: 0u64,
            }),
    {
        self.current = value;
        self.target = value;
        self.step = 0;
        self.steps_left = 0;
    }

    /// The smoother after a ramp restart from its current value toward
    /// `target` over `time_ms_q16` milliseconds of samples at `sample_rate`.
    pub open spec fn spec_set_target(self, sample_rate: u32, time_ms_q16: i64, target: i64) -> Smoother {
        let steps = spec_ramp_steps(time_ms_q16 as int, sample_rate as int);
        Smoother {
            current: self.current,
            target,
            step: fx_sat(fx_tdiv(target - self.current, steps)) as i64,
            steps_left: steps as u64,
        }
    }

    /// Restart the ramp from the current value toward `target`, spanning
    /// `time_ms_q16` milliseconds of samples at `sample_rate`.
    pub fn set_target(&mut self, sample_rate: u32, time_ms_q16: i64, target: i64)
        requires
            0 < sample_rate <= MAX_SAMPLE_RATE,
            0 <= time_ms_q16 <= MAX_SMOOTH_MS_Q16,
        ensures
            *final(self) == old(self).spec_set_target(sample_rate, time_ms_q16, target),
    {
        proof {
            assert(0 <= (time_ms_q16 as int) * (sample_rate as int) <= 2000 * 65536 * 10000000)
                by (nonlinear_arith)
                requires
                    0 <= time_ms_q16 as int <= 2000 * 65536,
                    0 < sample_rate as int <= 10000000,
            ;
        }
        let raw: u64 = (((time_ms_q16 as u64) * (sample_rate as u64)) / 1000) / 65536;
        let steps: u64 = if raw < 1 {
            1
        } else {
            raw
        };
        self.target = target;
        self.step = fx_ramp_step(target, self.current, steps);
        self.steps_left = steps;
    }

    /// Advance the ramp one sample and return the new value.
    pub fn next(&mut self) -> (r: i64)
        ensures
            *final(self) == old(self).spec_next(),
            r == final(self).current,
    {
        if self.steps_left == 0 {
            self.current
        } else if self.steps_left == 1 {
            self.steps_left = 0;
            self.current = self.target;
            self.current
        } else {
            self.steps_left = self.steps_left - 1;
            let moved: i64 = fx_add(self.current, self.step);
            self.current = if self.step >= 0 {
                if moved > self.target {
                    self.target
                } else {
                    moved
                }
            } else {
                if moved < self.target {
                    self.target
                } else {
                    moved
                }
            };
            self.current
        }
    }

    /// Fill `out[0..len]` with the next `len` ramp values; entries past
    /// `len` keep their old contents.
    pub fn next_block(&mut self, out: &mut Vec<i64>, len: usize)
        requires
            len <= old(out).len(),
        ensures
            final(out).len() == old(out).len(),
            *final(self) == old(self).spec_next_n(len as nat),
            forall|i: int|
                0 <= i < len ==> #[trigger] final(out)@[i] == old(self).spec_next_n(
                    (i + 1) as nat,
                ).current,
            forall|i: int| len <= i < old(out).len() ==> final(out)@[i] == old(out)@[i],
    {
        let ghost start = *self;
        let ghost out0 = *out;
        let mut i: usize = 0;
        while i < len
            invariant
                i <= len,
                len <= out.len(),
                out.len() == out0.len(),
                *self == start.spec_next_n(i as nat),
                forall|j: int|
                    0 <= j < i ==> #[trigger] out@[j] == start.spec_next_n((j + 1) as nat).current,
                forall|j: int| i <= j < out0.len() ==> out@[j] == out0@[j],
            decreases len - i,
        {
            let v: i64 = self.next();
            out.set(i, v);
            i = i + 1;
        }
    }

    /// One ramp step keeps the value inside any interval that contains both
    /// ends of the ramp.
    pub proof fn lemma_next_in_range(self, lo: int, hi: int)
        requires
            self.in_range(lo, hi),
        ensures
            self.spec_next().in_range(lo, hi),
    {
    }

    /// Stepping a live ramp keeps its target and per-step increment and
    /// counts its remaining steps down one at a time.
    pub proof fn lemma_ramp_counts_down(self, k: nat)
        requires
            k <= self.steps_left,
        ensures
            self.spec_next_n(k).steps_left == self.steps_left - k,
            self.spec_next_n(k).target == self.target,
            self.spec_next_n(k).step == self.step,
        decreases k,
    {
        if k > 0 {
            self.lemma_ramp_counts_down((k - 1) as nat);
        }
    }

    /// A ramp arrives at its target exactly: once at least `steps_left`
    /// steps have been taken, the current value equals the target. This is
    /// what lets a releasing voice's envelope reach exactly zero, so the
    /// release-completion scan can retire it.
    pub proof fn lemma_ramp_reaches_target(self, n: nat)
        requires
            self.steps_left >= 1,
            n >= self.steps_left,
        ensures
            self.spec_next_n(n).current == self.target,
            self.spec_next_n(n).target == self.target,
            self.spec_next_n(n).steps_left == 0,
        decreases n,
    {
        if n == self.steps_left {
            self.lemma_ramp_counts_down((n - 1) as nat);
        } else {
            self.lemma_ramp_reaches_target((n - 1) as nat);
        }
    }

    /// Any number of ramp steps keeps the value inside any interval that
    /// contains both ends of the ramp.
    pub proof fn lemma_next_n_in_range(self, lo: int, hi: int, n: nat)
        requires
            self.in_range(lo, hi),
        ensures
            self.spec_next_n(n).in_range(lo, hi),
        decreases n,
    {
        if n > 0 {
            self.lemma_next_n_in_range(lo, hi, (n - 1) as nat);
            self.spec_next_n((n - 1) as nat).lemma_next_in_range(lo, hi);
        }
    }
}

} // verus!
