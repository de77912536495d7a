//! The engine: the fixed-capacity voice pool with its parameters, sample
//! rate and allocation counter. Pool lifecycle operations live in `pool`,
//! the sample-accurate block processor in `process`.

use vstd::prelude::*;

use crate::envelope::MAX_SAMPLE_RATE;
use crate::params::EngineParams;
use crate::voice::Voice;
use crate::NUM_VOICES;

verus! {

/// The signal-processing core: a pool of optional voice slots, the global
/// parameters, and the allocation sequence counter that orders voice
/// stealing.
#[derive(Debug)]
pub struct ScaleColorizr {
    /// Global smoothed parameters for the current block.
    pub params: EngineParams,
    /// The fixed-capacity arena of voice slots.
    pub voices: Vec<Option<Voice>>,
    /// Samples per second; set by `initialize`.
    pub sample_rate: u32,
    /// The next allocation sequence number, strictly increasing.
    pub next_internal_voice_id: u64,
}

impl ScaleColorizr {
    /// The engine's internal invariant: a full-length pool of well-formed
    /// voices with distinct allocation numbers below the counter.
    pub open spec fn wf(self) -> bool {
        &&& self.voices@.len() == NUM_VOICES
        &&& forall|i: int|
            0 <= i < NUM_VOICES ==> ((#[trigger] self.voices@[i]) matches Some(v) ==> v.wf())
        &&& forall|i: int|
            0 <= i < NUM_VOICES ==> ((#[trigger] self.voices@[i]) matches Some(v)
                ==> v.internal_voice_id < self.next_internal_voice_id)
        &&& forall|i: int, j: int|
            0 <= i < j < NUM_VOICES ==> ((#[trigger] self.voices@[i]) matches Some(v) ==> ((
            #[trigger] self.voices@[j]) matches Some(w) ==> v.internal_voice_id
                != w.internal_voice_id))
        &&& self.params.wf()
        &&& 0 < self.sample_rate <= MAX_SAMPLE_RATE
    }

    /// A fresh engine: default parameters, an empty pool, and a provisional
    /// sample rate of one until the host calls `initialize`.
    pub fn new() -> (r: ScaleColorizr)
        ensures
            r.wf(),
            r.params == EngineParams::spec_default(),
            forall|i: int| 0 <= i < NUM_VOICES ==> (#[trigger] r.voices@[i]) is None,
            r.sample_rate == 1,
            r.next_internal_voice_id == 0,
    {
        let mut voices: Vec<Option<Voice>> = Vec::new();
        let mut i: usize = 0;
        while i < NUM_VOICES
            invariant
                voices@.len() == i,
                i <= NUM_VOICES,
                forall|j: int| 0 <= j < i ==> (#[trigger] voices@[j]) is None,
            decreases NUM_VOICES - i,
        {
            voices.push(None);
            i = i + 1;
        }
        ScaleColorizr {
            params: EngineParams::default(),
            voices,
            sample_rate: 1,
            next_internal_voice_id: 0,
        }
    }

    /// Adopt the host's sample rate.
    pub fn initialize(&mut self, sample_rate: u32)
        requires
            old(self).wf(),
            0 < sample_rate <= MAX_SAMPLE_RATE,
        ensures
            final(self).wf(),
            *final(self) == (ScaleColorizr { sample_rate, ..*old(self) }),
    {
        self.sample_rate = sample_rate;
    }

    /// Drop every voice without notifications; the host uses this to return
    /// the engine to silence.
    pub fn reset(&mut self)
        requires
            old(self).wf(),
        ensures
            final(self).wf(),
            final(self).voices@.len() == NUM_VOICES,
            forall|i: int| 0 <= i < NUM_VOICES ==> (#[trigger] final(self).voices@[i]) is None,
            final(self).params == old(self).params,
            final(self).sample_rate == old(self).sample_rate,
            final(self).next_internal_voice_id == old(self).next_internal_voice_id,
    {
        let mut i: usize = 0;
        while i < NUM_VOICES
            invariant
                old(self).wf(),
                self.voices@.len() == NUM_VOICES,
                i <= NUM_VOICES,
                forall|j: int| 0 <= j < i ==> (#[trigger] self.voices@[j]) is None,
                forall|j: int| i <= j < NUM_VOICES ==> self.voices@[j] == old(self).voices@[j],
                self.params == old(self).params,
                self.sample_rate == old(self).sample_rate,
                self.next_internal_voice_id == old(self).next_internal_voice_id,
            decreases NUM_VOICES - i,
        {
            self.voices.set(i, None);
            i = i + 1;
        }
    }

    /// Replace the engine's parameters for the coming blocks; the observer
    /// thread's parameter changes arrive through this, between blocks.
    pub fn set_params(&mut self, params: EngineParams)
        requires
            old(self).wf(),
            params.wf(),
        ensures
            final(self).wf(),
            *final(self) == (ScaleColorizr { params, ..*old(self) }),
    {
        self.params = params;
    }
}

impl Default for ScaleColorizr {
    /// Same as `new`.
    fn default() -> (r: ScaleColorizr)
        ensures
            r.wf(),
            r.params == EngineParams::spec_default(),
            forall|i: int| 0 <= i < NUM_VOICES ==> (#[trigger] r.voices@[i]) is None,
            r.sample_rate == 1,
            r.next_internal_voice_id == 0,
    {
        ScaleColorizr::new()
    }
}

} // verus!
