//! The inbound note-event stream and the outbound voice-terminated stream.
//!
//! Every event carries a sample-accurate timing offset within the current
//! buffer. Velocity is a Q16 unit-interval value; retune offsets are in
//! cents.

use vstd::prelude::*;

verus! {

/// One host event, tagged with its sample offset inside the buffer.
#[derive(Clone, Copy, PartialEq, Eq, Debug)]
pub enum NoteEvent {
    NoteOn { timing: u32, voice_id: Option<i32>, channel: u8, note: u8, velocity: u32 },
    NoteOff { timing: u32, voice_id: Option<i32>, channel: u8, note: u8 },
    Choke { timing: u32, voice_id: Option<i32>, channel: u8, note: u8 },
    PolyTuning { timing: u32, voice_id: Option<i32>, channel: u8, note: u8, tuning_cents: i32 },
}

/// A voice-terminated notification, emitted exactly once per voice
/// destruction, carrying the terminated voice's actual identifier.
#[derive(Clone, Copy, PartialEq, Eq, Structural, Debug)]
pub struct VoiceTerminated {
    pub timing: u32,
    pub voice_id: i32,
    pub channel: u8,
    pub note: u8,
}

impl NoteEvent {
    /// The sample offset the event is scheduled at.
    pub open spec fn spec_timing(self) -> u32 {
        match self {
            NoteEvent::NoteOn { timing, .. } => timing,
            NoteEvent::NoteOff { timing, .. } => timing,
            NoteEvent::Choke { timing, .. } => timing,
            NoteEvent::PolyTuning { timing, .. } => timing,
        }
    }

    /// The sample offset the event is scheduled at.
    pub fn timing(&self) -> (r: u32)
        ensures
            r == self.spec_timing(),
    {
        match self {
            NoteEvent::NoteOn { timing, .. } => *timing,
            NoteEvent::NoteOff { timing, .. } => *timing,
            NoteEvent::Choke { timing, .. } => *timing,
            NoteEvent::PolyTuning { timing, .. } => *timing,
        }
    }
}

/// A stable voice identifier synthesized from note and channel, used when
/// the host supplies none, so repeated lookups for the same unlabeled note
/// agree.
pub open spec fn spec_fallback_voice_id(note: u8, channel: u8) -> i32 {
    (channel * 65536 + note) as i32
}

/// Compute a voice ID in case the host doesn't provide one: the channel in
/// the third byte, the note in the low bytes.
pub fn compute_fallback_voice_id(note: u8, channel: u8) -> (r: i32)
    ensures
        r == spec_fallback_voice_id(note, channel),
{
    (channel as i32) * 65536 + (note as i32)
}

} // verus!
