//! The engine's smoothed parameter set, as plain fixed-point values.
//!
//! The observer thread applies parameter changes between blocks through
//! lock-free storage; the engine consumes the already-smoothed values, so
//! here they are plain data with range invariants matching the host-facing
//! parameter declarations.

use vstd::prelude::*;

use crate::filter::FilterMode;
use crate::fixed::FX_ONE;
use crate::NUM_VOICES;

verus! {

/// Global engine parameters for one processing block.
#[derive(Clone, Copy, Debug)]
pub struct EngineParams {
    /// Band gain in Q16 decibels.
    pub gain_db: i64,
    /// Attack time in Q16 milliseconds.
    pub attack_ms: i64,
    /// Release time in Q16 milliseconds.
    pub release_ms: i64,
    /// Band width in Q16 percent.
    pub band_width_percent: i64,
    /// Output the wet-minus-dry delta signal instead of the wet signal.
    pub delta: bool,
    /// Skip filter bands at or above Nyquist instead of configuring them.
    pub safety_switch: bool,
    /// How many of the pool's slots may hold simultaneous voices.
    pub voice_count: usize,
    /// Peaking-bell boost or notch, applied uniformly to every band.
    pub filter_mode: FilterMode,
}

impl EngineParams {
    /// Every parameter sits inside its host-declared range.
    pub open spec fn wf(self) -> bool {
        &&& 2 * FX_ONE <= self.gain_db <= 40 * FX_ONE
        &&& 2 * FX_ONE <= self.attack_ms <= 2000 * FX_ONE
        &&& 2 * FX_ONE <= self.release_ms <= 2000 * FX_ONE
        &&& 100 * FX_ONE <= self.band_width_percent <= 300 * FX_ONE
        &&& 1 <= self.voice_count <= NUM_VOICES
    }
}

impl EngineParams {
    /// The parameter defaults the host sees.
    pub open spec fn spec_default() -> EngineParams {
        EngineParams {
            gain_db: (10 * FX_ONE) as i64,
            attack_ms: (2 * FX_ONE) as i64,
            release_ms: (10 * FX_ONE) as i64,
            band_width_percent: (100 * FX_ONE) as i64,
            delta: false,
            safety_switch: true,
            voice_count: 16usize,
            filter_mode: FilterMode::Peak,
        }
    }
}

impl Default for EngineParams {
    /// The defaults the host sees: a 10 dB bell, 2 ms attack, 10 ms
    /// release, 100% band width, sixteen voices, safety limit on.
    fn default() -> (r: EngineParams)
        ensures
            r.wf(),
            r == EngineParams::spec_default(),
    {
        EngineParams {
            gain_db: 10 * FX_ONE,
            attack_ms: 2 * FX_ONE,
            release_ms: 10 * FX_ONE,
            band_width_percent: 100 * FX_ONE,
            delta: false,
            safety_switch: true,
            voice_count: 16,
            filter_mode: FilterMode::Peak,
        }
    }
}

} // verus!
