//! Note-to-frequency conversion in integer arithmetic.
//!
//! A pitch is a number of cents above MIDI note 0; note `n` sits at
//! `n * 100` cents, and retune offsets shift that by fractions of a
//! semitone. Frequencies are produced in millihertz, from a twelve-entry
//! table of equal-temperament semitone ratios in Q32 with linear
//! interpolation between neighboring semitones, so that note 69 lands on
//! 440 Hz exactly.

use vstd::prelude::*;

verus! {

/// One in Q32, the scale of the semitone ratio table.
pub const Q32_ONE: u64 = 4294967296;

/// Highest pitch the engine will convert: 100 cents above MIDI note 126.
pub const MAX_CENTS: u32 = 12700;

/// Upper bound on any frequency the conversion can produce, in millihertz.
pub const MAX_FREQ_MHZ: u64 = 14080000;

/// `2^(s/12)` in Q32 for semitone `s` within an octave; entry 12 is the
/// exact octave ratio.
pub open spec fn spec_semitone_ratio_q32(s: int) -> int {
    if s <= 0 {
        4294967296
    } else if s == 1 {
        4550359341
    } else if s == 2 {
        4820937788
    } else if s == 3 {
        5107605667
    } else if s == 4 {
        5411319704
    } else if s == 5 {
        5733093519
    } else if s == 6 {
        6074000999
    } else if s == 7 {
        6435179894
    } else if s == 8 {
        6817835603
    } else if s == 9 {
        7223245205
    } else if s == 10 {
        7652761716
    } else if s == 11 {
        8107818609
    } else {
        8589934592
    }
}

fn semitone_ratio_q32(s: u32) -> (r: u64)
    requires
        s <= 12,
    ensures
        r == spec_semitone_ratio_q32(s as int),
        Q32_ONE <= r <= 2 * Q32_ONE,
{
    if s == 0 {
        4294967296
    } else if s == 1 {
        4550359341
    } else if s == 2 {
        4820937788
    } else if s == 3 {
        5107605667
    } else if s == 4 {
        5411319704
    } else if s == 5 {
        5733093519
    } else if s == 6 {
        6074000999
    } else if s == 7 {
        6435179894
    } else if s == 8 {
        6817835603
    } else if s == 9 {
        7223245205
    } else if s == 10 {
        7652761716
    } else if s == 11 {
        8107818609
    } else {
        8589934592
    }
}

/// The semitone table rises with the pitch.
proof fn lemma_semitone_ratio_monotone(s: int)
    requires
        0 <= s <= 11,
    ensures
        spec_semitone_ratio_q32(s) <= spec_semitone_ratio_q32(s + 1),
{
}

/// `2^n`.
pub open spec fn spec_pow2(n: nat) -> nat
    decreases n,
{
    if n == 0 {
        1
    } else {
        2 * spec_pow2((n - 1) as nat)
    }
}

/// Doubling step by step, `2^n` never decreases in `n`.
proof fn lemma_pow2_increases(n: nat, m: nat)
    requires
        n <= m,
    ensures
        spec_pow2(n) <= spec_pow2(m),
    decreases m,
{
    if n < m {
        lemma_pow2_increases(n, (m - 1) as nat);
    }
}

fn pow2_u64(n: u32) -> (r: u64)
    requires
        n <= 10,
    ensures
        r == spec_pow2(n as nat),
        1 <= r <= 1024,
{
    let mut r: u64 = 1;
    let mut i: u32 = 0;
    proof {
        lemma_pow2_increases(0, 10);
        assert(spec_pow2(10) == 1024) by {
            reveal_with_fuel(spec_pow2, 11);
        };
    }
    while i < n
        invariant
            i <= n <= 10,
            r == spec_pow2(i as nat),
            spec_pow2(10) == 1024,
        decreases n - i,
    {
        proof {
            assert(spec_pow2((i + 1) as nat) == 2 * spec_pow2(i as nat));
            lemma_pow2_increases((i + 1) as nat, 10);
        }
        r = 2 * r;
        i = i + 1;
    }
    proof {
        lemma_pow2_increases(n as nat, 10);
        lemma_pow2_increases(0, n as nat);
    }
    r
}

/// The frequency in millihertz of a pitch given in cents above MIDI note 0:
/// octave shifts of the interpolated semitone-ratio table, anchored so that
/// 6900 cents (note 69) is exactly 440 Hz.
pub open spec fn spec_freq_mhz_of_cents(cents: int) -> int {
    let e = cents + 300;
    let octave = e / 1200;
    let rem = e % 1200;
    let s = rem / 100;
    let cr = rem % 100;
    let base = spec_semitone_ratio_q32(s);
    let next = spec_semitone_ratio_q32(s + 1);
    let ratio = base + ((next - base) * cr) / 100;
    (440000 * ratio * spec_pow2(octave as nat)) / 274877906944
}

/// Convert a pitch in cents to a frequency in millihertz.
pub fn freq_mhz_of_cents(cents: u32) -> (r: u64)
    requires
        cents <= MAX_CENTS,
    ensures
        r == spec_freq_mhz_of_cents(cents as int),
        6875 <= r <= MAX_FREQ_MHZ,
{
    let e: u32 = cents + 300;
    let octave: u32 = e / 1200;
    let rem: u32 = e % 1200;
    let s: u32 = rem / 100;
    let cr: u32 = rem % 100;
    let base: u64 = semitone_ratio_q32(s);
    proof {
        lemma_semitone_ratio_monotone(s as int);
    }
    let next: u64 = semitone_ratio_q32(s + 1);
    proof {
        assert(((next - base) as int) * (cr as int) <= 4294967296int * 100) by (nonlinear_arith)
            requires
                0 <= (next - base) as int <= 4294967296,
                0 <= (cr as int) < 100,
        ;
        assert(((next - base) as int) * (cr as int) <= ((next - base) as int) * 100)
            by (nonlinear_arith)
            requires
                0 <= (next - base) as int,
                0 <= (cr as int) < 100,
        ;
        assert((((next - base) as int) * (cr as int)) / 100 <= (next - base) as int)
            by (nonlinear_arith)
            requires
                0 <= ((next - base) as int) * (cr as int) <= ((next - base) as int) * 100,
        ;
        assert(0 <= (((next - base) as int) * (cr as int)) / 100) by (nonlinear_arith)
            requires
                0 <= ((next - base) as int) * (cr as int),
        ;
    }
    let ratio: u64 = base + ((next - base) * (cr as u64)) / 100;
    let p2: u64 = pow2_u64(octave);
    proof {
        assert(440000 * (ratio as int) * (p2 as int) <= 440000 * (2 * (Q32_ONE as int)) * 1024)
            by (nonlinear_arith)
            requires
                0 <= (ratio as int) <= 2 * (Q32_ONE as int),
                0 <= (p2 as int) <= 1024,
        ;
        assert(440000 * (ratio as int) * (p2 as int) >= 440000 * (Q32_ONE as int) * 1)
            by (nonlinear_arith)
            requires
                (ratio as int) >= Q32_ONE as int,
                (p2 as int) >= 1,
        ;
        assert((440000 * (ratio as int) * (p2 as int)) / 274877906944 >= 6875) by (nonlinear_arith)
            requires
                440000 * (ratio as int) * (p2 as int) >= 440000 * (Q32_ONE as int),
                Q32_ONE == 4294967296,
        ;
        assert((440000 * (ratio as int) * (p2 as int)) / 274877906944 <= 14080000)
            by (nonlinear_arith)
            requires
                440000 * (ratio as int) * (p2 as int) <= 440000 * (2 * (Q32_ONE as int)) * 1024,
                Q32_ONE == 4294967296,
        ;
    }
    let wide: u128 = (440000u128 * (ratio as u128) * (p2 as u128)) / 274877906944u128;
    wide as u64
}

/// The pitch of `note` shifted by `tuning_cents`, clamped to the range the
/// conversion accepts.
pub open spec fn spec_clamped_cents(note: u8, tuning_cents: i32) -> int {
    let c = note * 100 + tuning_cents;
    if c < 0 {
        0
    } else if c > MAX_CENTS as int {
        MAX_CENTS as int
    } else {
        c
    }
}

/// Clamp `note * 100 + tuning_cents` into the convertible pitch range.
pub fn clamped_cents(note: u8, tuning_cents: i32) -> (r: u32)
    ensures
        r == spec_clamped_cents(note, tuning_cents),
        r <= MAX_CENTS,
{
    let c: i64 = (note as i64) * 100 + (tuning_cents as i64);
    if c < 0 {
        0
    } else if c > MAX_CENTS as i64 {
        MAX_CENTS
    } else {
        c as u32
    }
}

} // verus!
