//! Real-time signal-processing core of a polyphonic "colorizing" audio
//! effect: each incoming note drives a bank of per-voice filters tuned to
//! harmonics of the note's fundamental frequency.
//!
//! All audio values, frequencies and parameters are fixed-point integers so
//! that every step of the engine carries a precise contract.

use vstd::prelude::*;

pub mod display;
pub mod engine;
pub mod envelope;
pub mod events;
pub mod filter;
pub mod fixed;
pub mod laws;
pub mod params;
pub mod pool;
pub mod process;
pub mod tuning;
pub mod voice;

verus! {

/// Number of voice slots in the pool (hard capacity bound).
pub const NUM_VOICES: usize = 128;

/// Number of filter bands in each voice's filter bank.
pub const NUM_FILTERS: usize = 8;

/// Longest sub-block the block processor will process in one step.
pub const MAX_BLOCK_SIZE: usize = 64;

} // verus!
