//! Sample-accurate event scheduling and the block processor.
//!
//! The processor cuts each buffer into sub-blocks no longer than
//! `MAX_BLOCK_SIZE`, applies every event that falls on or before a
//! sub-block's start exactly there, and shortens a sub-block whenever the
//! next event's timestamp falls strictly inside it, so no event is ever
//! applied at the wrong sample.

use vstd::prelude::*;

use crate::engine::ScaleColorizr;
use crate::events::NoteEvent;
use crate::events::VoiceTerminated;
use crate::pool::spec_choke_notes_upto;
use crate::pool::spec_choke_transition;
use crate::pool::spec_first_match;
use crate::pool::spec_is_new_voice;
use crate::pool::spec_release_transition;
use crate::pool::spec_start_slot;
use crate::pool::spec_steals;
use crate::tuning::spec_clamped_cents;
use crate::tuning::spec_freq_mhz_of_cents;
use crate::voice::Voice;
use crate::NUM_VOICES;

verus! {

/// A host timestamp clamped into the buffer's valid sample range, the
/// defensive bound on out-of-range events.
pub open spec fn spec_eff_timing(e: NoteEvent, num_samples: int) -> int {
    if e.spec_timing() >= num_samples {
        num_samples - 1
    } else {
        e.spec_timing() as int
    }
}

/// The host hands events over in timestamp order.
pub open spec fn spec_sorted(events: Seq<NoteEvent>) -> bool {
    forall|i: int, j: int|
        0 <= i <= j < events.len() ==> (#[trigger] events[i]).spec_timing() <= (
        #[trigger] events[j]).spec_timing()
}

/// The first event index at or after `idx` whose clamped timestamp lies
/// strictly after `block_start`: events before it are due now.
pub open spec fn spec_applied_end(
    events: Seq<NoteEvent>,
    idx: int,
    block_start: int,
    num_samples: int,
) -> int
    decreases events.len() - idx,
{
    if idx < 0 || idx >= events.len() {
        idx
    } else if spec_eff_timing(events[idx], num_samples) <= block_start {
        spec_applied_end(events, idx + 1, block_start, num_samples)
    } else {
        idx
    }
}

/// Where the current sub-block must end: shortened to the next unapplied
/// event's timestamp whenever that falls before the tentative end.
pub open spec fn spec_new_block_end(
    events: Seq<NoteEvent>,
    k: int,
    block_end: int,
    num_samples: int,
) -> int {
    if k < events.len() && spec_eff_timing(events[k], num_samples) < block_end {
        spec_eff_timing(events[k], num_samples)
    } else {
        block_end
    }
}

/// Velocity clamped into the Q16 unit interval.
pub open spec fn spec_clamped_velocity(velocity: u32) -> u32 {
    if velocity > 65536 {
        65536u32
    } else {
        velocity
    }
}

/// Two engine values that agree on everything the event machinery reads
/// and writes.
pub open spec fn spec_eq_state(a: ScaleColorizr, b: ScaleColorizr) -> bool {
    &&& a.voices@ == b.voices@
    &&& a.params == b.params
    &&& a.sample_rate == b.sample_rate
    &&& a.next_internal_voice_id == b.next_internal_voice_id
}

/// How one event transforms the engine and the outbound notifications:
/// note-on allocates (stealing the oldest voice if need be), note-off
/// releases, choke destroys, retune changes frequency.
pub open spec fn rel_apply_event(
    pre: ScaleColorizr,
    out0: Seq<VoiceTerminated>,
    e: NoteEvent,
    post: ScaleColorizr,
    out1: Seq<VoiceTerminated>,
) -> bool {
    &&& post.params == pre.params
    &&& post.sample_rate == pre.sample_rate
    &&& match e {
        NoteEvent::NoteOn { timing, voice_id, channel, note, velocity } => {
            let slot = spec_start_slot(pre.voices@, pre.params.voice_count as int);
            &&& post.next_internal_voice_id == pre.next_internal_voice_id + 1
            &&& post.voices@.len() == NUM_VOICES
            &&& forall|j: int|
                0 <= j < NUM_VOICES && j != slot ==> post.voices@[j] == pre.voices@[j]
            &&& (post.voices@[slot] matches Some(nv) && spec_is_new_voice(nv, voice_id, channel,
                note, pre.next_internal_voice_id, spec_clamped_velocity(velocity),
                pre.sample_rate, pre.params.attack_ms))
            &&& if spec_steals(pre.voices@, pre.params.voice_count as int) {
                pre.voices@[slot] matches Some(sv) && out1 == out0.push(
                    VoiceTerminated {
                        timing,
                        voice_id: sv.id,
                        channel: sv.channel,
                        note: sv.note,
                    },
                )
            } else {
                out1 == out0
            }
        },
        NoteEvent::NoteOff { timing: _, voice_id, channel, note } => {
            &&& post.voices@ == spec_release_transition(pre.voices@, voice_id, channel, note,
                pre.sample_rate, pre.params.release_ms)
            &&& post.next_internal_voice_id == pre.next_internal_voice_id
            &&& out1 == out0
        },
        NoteEvent::Choke { timing, voice_id, channel, note } => {
            &&& post.voices@ == spec_choke_transition(pre.voices@, voice_id, channel, note)
            &&& post.next_internal_voice_id == pre.next_internal_voice_id
            &&& if voice_id is Some {
                let fm = spec_first_match(pre.voices@, NUM_VOICES as int, voice_id, channel,
                    note);
                if fm >= 0 {
                    out1 == out0.push(
                        VoiceTerminated {
                            timing,
                            voice_id: pre.voices@[fm]->0.id,
                            channel,
                            note,
                        },
                    )
                } else {
                    out1 == out0
                }
            } else {
                out1 == out0 + spec_choke_notes_upto(pre.voices@, NUM_VOICES as int, voice_id,
                    channel, note, timing)
            }
        },
        NoteEvent::PolyTuning { timing: _, voice_id, channel, note, tuning_cents } => {
            let fm = spec_first_match(pre.voices@, NUM_VOICES as int, voice_id, channel, note);
            &&& if fm >= 0 {
                post.voices@ == pre.voices@.update(fm, Some(
                    Voice {
                        frequency: spec_freq_mhz_of_cents(spec_clamped_cents(note,
                            tuning_cents)) as u64,
                        ..pre.voices@[fm]->0
                    },
                ))
            } else {
                post.voices@ == pre.voices@
            }
            &&& post.next_internal_voice_id == pre.next_internal_voice_id
            &&& out1 == out0
        },
    }
}

/// The engine and notifications after applying the events `[i, j)` in
/// order.
pub open spec fn rel_apply_range(
    pre: ScaleColorizr,
    out0: Seq<VoiceTerminated>,
    events: Seq<NoteEvent>,
    i: int,
    j: int,
    post: ScaleColorizr,
    out1: Seq<VoiceTerminated>,
) -> bool
    decreases j - i,
{
    if i >= j {
        spec_eq_state(post, pre) && out1 == out0
    } else {
        exists|mid: ScaleColorizr, om: Seq<VoiceTerminated>|
            rel_apply_range(pre, out0, events, i, j - 1, mid, om) && #[trigger] rel_apply_event(
                mid,
                om,
                events[j - 1],
                post,
                out1,
            )
    }
}

/// Applying events never occupies a slot at or beyond the configured
/// voice-count limit: allocation always lands below the limit, and every
/// other event only releases, destroys or retunes existing voices. So a
/// pool whose slots beyond the limit are empty stays that way, which bounds
/// the number of simultaneously active voices by the limit itself.
pub proof fn lemma_rel_range_confines(
    pre: ScaleColorizr,
    out0: Seq<VoiceTerminated>,
    events: Seq<NoteEvent>,
    i: int,
    j: int,
    post: ScaleColorizr,
    out1: Seq<VoiceTerminated>,
)
    requires
        rel_apply_range(pre, out0, events, i, j, post, out1),
        pre.voices@.len() == NUM_VOICES,
        1 <= pre.params.voice_count <= NUM_VOICES,
    ensures
        post.params == pre.params,
        post.voices@.len() == NUM_VOICES,
        forall|s: int|
            pre.params.voice_count <= s < NUM_VOICES && (#[trigger] pre.voices@[s]) is None
                ==> post.voices@[s] is None,
    decreases j - i,
{
    if i >= j {
    } else {
        let (mid, om) = choose|mid: ScaleColorizr, om: Seq<VoiceTerminated>|
            rel_apply_range(pre, out0, events, i, j - 1, mid, om) && #[trigger] rel_apply_event(
                mid,
                om,
                events[j - 1],
                post,
                out1,
            );
        lemma_rel_range_confines(pre, out0, events, i, j - 1, mid, om);
        let limit = pre.params.voice_count as int;
        match events[j - 1] {
            NoteEvent::NoteOn { .. } => {
                crate::pool::lemma_first_free_bounds(mid.voices@, limit);
                if crate::pool::spec_first_free(mid.voices@, limit) < 0 {
                    crate::pool::lemma_oldest_bounds(mid.voices@, limit);
                }
                assert(0 <= spec_start_slot(mid.voices@, limit) < limit);
                assert(post.voices@.len() == NUM_VOICES);
                assert forall|s: int|
                    limit <= s < NUM_VOICES && (#[trigger] pre.voices@[s]) is None
                        implies post.voices@[s] is None by {
                    assert(mid.voices@[s] is None);
                    assert(post.voices@[s] == mid.voices@[s]);
                };
            },
            NoteEvent::NoteOff { voice_id, channel, note, .. } => {
                assert(post.voices@ == spec_release_transition(mid.voices@, voice_id, channel,
                    note, mid.sample_rate, mid.params.release_ms));
                if voice_id is Some {
                    crate::pool::lemma_first_match_bounds(mid.voices@, mid.voices@.len() as int,
                        voice_id, channel, note);
                }
                assert(post.voices@.len() == NUM_VOICES);
                assert forall|s: int|
                    limit <= s < NUM_VOICES && (#[trigger] pre.voices@[s]) is None
                        implies post.voices@[s] is None by {
                    assert(mid.voices@[s] is None);
                };
            },
            NoteEvent::Choke { voice_id, channel, note, .. } => {
                assert(post.voices@ == crate::pool::spec_choke_transition(mid.voices@, voice_id,
                    channel, note));
                if voice_id is Some {
                    crate::pool::lemma_first_match_bounds(mid.voices@, mid.voices@.len() as int,
                        voice_id, channel, note);
                }
                assert(post.voices@.len() == NUM_VOICES);
                assert forall|s: int|
                    limit <= s < NUM_VOICES && (#[trigger] pre.voices@[s]) is None
                        implies post.voices@[s] is None by {
                    assert(mid.voices@[s] is None);
                };
            },
            NoteEvent::PolyTuning { voice_id, channel, note, .. } => {
                crate::pool::lemma_first_match_bounds(mid.voices@, mid.voices@.len() as int,
                    voice_id, channel, note);
                assert(post.voices@.len() == NUM_VOICES);
                assert forall|s: int|
                    limit <= s < NUM_VOICES && (#[trigger] pre.voices@[s]) is None
                        implies post.voices@[s] is None by {
                    assert(mid.voices@[s] is None);
                };
            },
        }
    }
}

/// Whether the next unapplied event is due at or before `block_start`.
fn event_due(events: &Vec<NoteEvent>, idx: usize, block_start: usize, num_samples: usize) -> (r:
    bool)
    requires
        idx <= events@.len(),
        num_samples >= 1,
    ensures
        r == (idx < events@.len() && spec_eff_timing(events@[idx as int], num_samples as int)
            <= block_start),
{
    if idx < events.len() {
        let t: u32 = events[idx].timing();
        let tu: usize = t as usize;
        let eff: usize = if tu >= num_samples {
            num_samples - 1
        } else {
            tu
        };
        eff <= block_start
    } else {
        false
    }
}

impl ScaleColorizr {
    /// Apply, in order, every event due at or before `block_start`, and
    /// shorten the sub-block to end exactly at the next event's timestamp
    /// if that falls strictly inside it.
    pub fn process_events(
        &mut self,
        events: &Vec<NoteEvent>,
        next_event_idx: &mut usize,
        block_start: usize,
        block_end: &mut usize,
        num_samples: usize,
        out: &mut Vec<VoiceTerminated>,
    )
        requires
            old(self).wf(),
            spec_sorted(events@),
            *old(next_event_idx) <= events@.len(),
            block_start < num_samples,
            block_start < *old(block_end) <= num_samples,
            old(self).next_internal_voice_id + (events@.len() - *old(next_event_idx))
                <= u64::MAX,
        ensures
            final(self).wf(),
            final(self).params == old(self).params,
            final(self).sample_rate == old(self).sample_rate,
            *final(next_event_idx) == spec_applied_end(events@, *old(next_event_idx) as int,
                block_start as int, num_samples as int),
            *old(next_event_idx) <= *final(next_event_idx) <= events@.len(),
            final(self).next_internal_voice_id <= old(self).next_internal_voice_id
                + (*final(next_event_idx) - *old(next_event_idx)),
            *final(block_end) == spec_new_block_end(events@, *final(next_event_idx) as int,
                *old(block_end) as int, num_samples as int),
            block_start < *final(block_end) <= *old(block_end),
            rel_apply_range(*old(self), old(out)@, events@, *old(next_event_idx) as int,
                *final(next_event_idx) as int, *final(self), final(out)@),
    {
        let ghost s0 = *old(self);
        let ghost o0 = old(out)@;
        let ghost idx0 = *old(next_event_idx) as int;
        while event_due(events, *next_event_idx, block_start, num_samples)
            invariant
                self.wf(),
                spec_sorted(events@),
                idx0 <= *next_event_idx <= events@.len(),
                block_start < num_samples,
                self.params == s0.params,
                self.sample_rate == s0.sample_rate,
                self.next_internal_voice_id <= s0.next_internal_voice_id + (*next_event_idx
                    - idx0),
                s0.next_internal_voice_id + (events@.len() - idx0) <= u64::MAX,
                spec_applied_end(events@, idx0, block_start as int, num_samples as int)
                    == spec_applied_end(events@, *next_event_idx as int, block_start as int,
                    num_samples as int),
                rel_apply_range(s0, o0, events@, idx0, *next_event_idx as int, *self, out@),
            decreases events@.len() - *next_event_idx,
        {
            let idx: usize = *next_event_idx;
            let en: usize = events.len();
            proof {
                assert(idx < en);
            }
            let ghost smid = *self;
            let ghost omid = out@;
            let e: NoteEvent = events[idx];
            match e {
                NoteEvent::NoteOn { timing, voice_id, channel, note, velocity } => {
                    let vel: u32 = if velocity > 65536 {
                        65536
                    } else {
                        velocity
                    };
                    self.start_voice(timing, voice_id, channel, note, vel, out);
                },
                NoteEvent::NoteOff { timing: _, voice_id, channel, note } => {
                    self.start_release_for_voices(voice_id, channel, note);
                },
                NoteEvent::Choke { timing, voice_id, channel, note } => {
                    self.choke_voices(timing, voice_id, channel, note, out);
                },
                NoteEvent::PolyTuning { timing: _, voice_id, channel, note, tuning_cents } => {
                    self.retune_voice(voice_id, channel, note, tuning_cents);
                },
            }
            *next_event_idx = idx + 1;
            proof {
                assert(rel_apply_event(smid, omid, events@[idx as int], *self, out@));
                assert(exists|mid: ScaleColorizr, om: Seq<VoiceTerminated>|
                    rel_apply_range(s0, o0, events@, idx0, (idx + 1) - 1, mid, om)
                        && #[trigger] rel_apply_event(mid, om, events@[(idx + 1) - 1], *self,
                        out@)) by {
                    assert(rel_apply_range(s0, o0, events@, idx0, (idx + 1) - 1, smid, omid)
                        && rel_apply_event(smid, omid, events@[(idx + 1) - 1], *self, out@));
                };
                assert(rel_apply_range(s0, o0, events@, idx0, idx + 1, *self, out@));
            }
        }
        let idx: usize = *next_event_idx;
        if idx < events.len() {
            let t: u32 = events[idx].timing();
            let tu: usize = t as usize;
            let eff: usize = if tu >= num_samples {
                num_samples - 1
            } else {
                tu
            };
            if eff < *block_end {
                *block_end = eff;
            }
        }
    }
}

} // verus!

verus! {

/// Copy `src[start..end)` into a fresh vector.
fn copy_range(src: &Vec<i64>, start: usize, end: usize) -> (r: Vec<i64>)
    requires
        start <= end <= src@.len(),
    ensures
        r@.len() == end - start,
        forall|k: int| 0 <= k < end - start ==> r@[k] == src@[start + k],
{
    let mut r: Vec<i64> = Vec::new();
    let mut k: usize = 0;
    while k < end - start
        invariant
            start <= end <= src@.len(),
            k <= end - start,
            r@.len() == k,
            forall|t: int| 0 <= t < k ==> r@[t] == src@[start + t],
        decreases end - start - k,
    {
        let v: i64 = src[start + k];
        r.push(v);
        k = k + 1;
    }
    r
}

/// Subtract the dry copy of a sub-block from the processed buffer, sample
/// for sample, producing the wet-minus-dry delta signal.
pub fn subtract_dry(
    left: &mut Vec<i64>,
    right: &mut Vec<i64>,
    dry_l: &Vec<i64>,
    dry_r: &Vec<i64>,
    start: usize,
    end: usize,
)
    requires
        start <= end <= old(left)@.len(),
        old(left)@.len() == old(right)@.len(),
        dry_l@.len() == end - start,
        dry_r@.len() == end - start,
    ensures
        final(left)@.len() == old(left)@.len(),
        final(right)@.len() == old(right)@.len(),
        forall|j: int|
            start <= j < end ==> #[trigger] final(left)@[j] == crate::fixed::fx_sat(
                old(left)@[j] - dry_l@[j - start],
            ),
        forall|j: int|
            start <= j < end ==> #[trigger] final(right)@[j] == crate::fixed::fx_sat(
                old(right)@[j] - dry_r@[j - start],
            ),
        forall|j: int|
            !(start <= j < end) && 0 <= j < old(left)@.len() ==> final(left)@[j] == old(left)@[j]
                && final(right)@[j] == old(right)@[j],
{
    let len: usize = end - start;
    let mut k: usize = 0;
    while k < len
        invariant
            k <= len,
            len == end - start,
            start <= end <= left@.len(),
            left@.len() == old(left)@.len(),
            right@.len() == old(right)@.len(),
            left@.len() == right@.len(),
            dry_l@.len() == len,
            dry_r@.len() == len,
            forall|j: int|
                start <= j < start + k ==> #[trigger] left@[j] == crate::fixed::fx_sat(
                    old(left)@[j] - dry_l@[j - start],
                ),
            forall|j: int|
                start <= j < start + k ==> #[trigger] right@[j] == crate::fixed::fx_sat(
                    old(right)@[j] - dry_r@[j - start],
                ),
            forall|j: int|
                !(start <= j < start + k) && 0 <= j < left@.len() ==> left@[j] == old(left)@[j]
                    && right@[j] == old(right)@[j],
        decreases len - k,
    {
        let idx: usize = start + k;
        let nl: i64 = crate::fixed::fx_sub(left[idx], dry_l[k]);
        let nr: i64 = crate::fixed::fx_sub(right[idx], dry_r[k]);
        left.set(idx, nl);
        right.set(idx, nr);
        proof {
            assert(left@[idx as int] == crate::fixed::fx_sat(old(left)@[idx as int]
                - dry_l@[idx as int - start]));
            assert(right@[idx as int] == crate::fixed::fx_sat(old(right)@[idx as int]
                - dry_r@[idx as int - start]));
        }
        k = k + 1;
    }
}

impl ScaleColorizr {
    /// Process one stereo buffer in place, applying the given time-ordered
    /// events at their exact sample offsets: the buffer is cut into
    /// sub-blocks at most `MAX_BLOCK_SIZE` long and never crossing an event
    /// timestamp; due events are applied at each sub-block start; every
    /// active voice's filter bank colors the sub-block; in delta mode the
    /// dry signal is subtracted sample for sample; and voices whose release
    /// has finished are retired with a notification. Returns the
    /// voice-terminated notifications of this buffer.
    pub fn process(
        &mut self,
        left: &mut Vec<i64>,
        right: &mut Vec<i64>,
        events: &Vec<NoteEvent>,
    ) -> (out: Vec<VoiceTerminated>)
        requires
            old(self).wf(),
            old(left)@.len() == old(right)@.len(),
            old(left)@.len() <= u32::MAX,
            spec_sorted(events@),
            old(self).next_internal_voice_id + events@.len() <= u64::MAX,
        ensures
            final(self).wf(),
            final(left)@.len() == old(left)@.len(),
            final(right)@.len() == old(right)@.len(),
            final(self).params == old(self).params,
            final(self).sample_rate == old(self).sample_rate,
            final(self).next_internal_voice_id <= old(self).next_internal_voice_id
                + events@.len(),
            forall|s: int|
                old(self).params.voice_count <= s < NUM_VOICES && (#[trigger] old(
                    self,
                ).voices@[s]) is None ==> final(self).voices@[s] is None,
            (events@.len() == 0 && (forall|i: int|
                0 <= i < NUM_VOICES ==> (#[trigger] old(self).voices@[i]) is None)) ==> ({
                &&& final(self).voices@ == old(self).voices@
                &&& out@.len() == 0
                &&& old(self).params.delta ==> forall|k: int|
                    0 <= k < old(left)@.len() ==> final(left)@[k] == 0 && final(right)@[k] == 0
                &&& !old(self).params.delta ==> final(left)@ == old(left)@ && final(right)@
                    == old(right)@
            }),
    {
        let num_samples: usize = left.len();
        let mut out: Vec<VoiceTerminated> = Vec::new();
        if num_samples == 0 {
            return out;
        }
        let ghost quiet = events@.len() == 0 && (forall|i: int|
            0 <= i < NUM_VOICES ==> (#[trigger] old(self).voices@[i]) is None);
        let sample_rate: u32 = self.sample_rate;
        let params = self.params;
        let mut next_event_idx: usize = 0;
        let mut block_start: usize = 0;
        let mut block_end: usize = if num_samples > crate::MAX_BLOCK_SIZE {
            crate::MAX_BLOCK_SIZE
        } else {
            num_samples
        };
        while block_start < num_samples
            invariant
                self.wf(),
                spec_sorted(events@),
                num_samples == old(left)@.len(),
                num_samples <= u32::MAX,
                left@.len() == num_samples,
                right@.len() == num_samples,
                num_samples > 0,
                self.params == old(self).params,
                self.sample_rate == old(self).sample_rate,
                params == old(self).params,
                sample_rate == old(self).sample_rate,
                block_start <= num_samples,
                block_start < num_samples ==> block_start < block_end <= num_samples,
                next_event_idx <= events@.len(),
                self.next_internal_voice_id + (events@.len() - next_event_idx) <= u64::MAX,
                self.next_internal_voice_id <= old(self).next_internal_voice_id
                    + next_event_idx,
                forall|s: int|
                    old(self).params.voice_count <= s < NUM_VOICES && (#[trigger] old(
                        self,
                    ).voices@[s]) is None ==> self.voices@[s] is None,
                quiet == (events@.len() == 0 && (forall|i: int|
                    0 <= i < NUM_VOICES ==> (#[trigger] old(self).voices@[i]) is None)),
                quiet ==> ({
                    &&& self.voices@ == old(self).voices@
                    &&& out@.len() == 0
                    &&& forall|k: int|
                        0 <= k < block_start ==> #[trigger] left@[k] == (if params.delta {
                            0i64
                        } else {
                            old(left)@[k]
                        })
                    &&& forall|k: int|
                        0 <= k < block_start ==> #[trigger] right@[k] == (if params.delta {
                            0i64
                        } else {
                            old(right)@[k]
                        })
                    &&& forall|k: int|
                        block_start <= k < num_samples ==> #[trigger] left@[k] == old(left)@[k]
                    &&& forall|k: int|
                        block_start <= k < num_samples ==> #[trigger] right@[k] == old(right)@[k]
                }),
            decreases num_samples - block_start,
        {
            let ghost s_iter = *self;
            let ghost out_iter = out@;
            let ghost idx_before = next_event_idx;
            let ghost left_entry = left@;
            let ghost right_entry = right@;
            self.process_events(
                events,
                &mut next_event_idx,
                block_start,
                &mut block_end,
                num_samples,
                &mut out,
            );
            let ghost s_after_events = *self;
            proof {
                lemma_rel_range_confines(s_iter, out_iter, events@, idx_before as int,
                    next_event_idx as int, *self, out@);
                if quiet {
                    assert(next_event_idx == 0);
                    assert(rel_apply_range(s_iter, out_iter, events@, 0, 0, *self, out@));
                    assert(spec_eq_state(*self, s_iter));
                    assert(self.voices@ == old(self).voices@);
                    assert(out@ == out_iter);
                }
            }
            let dry_l: Vec<i64> = copy_range(left, block_start, block_end);
            let dry_r: Vec<i64> = copy_range(right, block_start, block_end);
            let ghost left_pre = left@;
            let ghost right_pre = right@;
            let ghost vs_pre = self.voices@;
            let mut slot: usize = 0;
            while slot < NUM_VOICES
                invariant
                    slot <= NUM_VOICES,
                    self.wf(),
                    0 < sample_rate <= crate::envelope::MAX_SAMPLE_RATE,
                    sample_rate == self.sample_rate,
                    params == self.params,
                    params.wf(),
                    block_start <= block_end <= num_samples,
                    left@.len() == num_samples,
                    right@.len() == num_samples,
                    vs_pre.len() == NUM_VOICES,
                    self.voices@.len() == NUM_VOICES,
                    self.next_internal_voice_id == s_after_events.next_internal_voice_id,
                    self.params == s_after_events.params,
                    self.sample_rate == s_after_events.sample_rate,
                    forall|j: int|
                        0 <= j < NUM_VOICES ==> ((#[trigger] self.voices@[j]) is Some <==> vs_pre[j]
                            is Some),
                    forall|j: int|
                        0 <= j < NUM_VOICES ==> ((#[trigger] self.voices@[j]) matches Some(v) ==> (
                        vs_pre[j] matches Some(w) ==> v.internal_voice_id == w.internal_voice_id)),
                    forall|j: int|
                        !(block_start <= j < block_end) && 0 <= j < num_samples
                            ==> left@[j] == left_pre[j] && right@[j] == right_pre[j],
                    quiet ==> (forall|j: int|
                        0 <= j < NUM_VOICES ==> (#[trigger] vs_pre[j]) is None),
                    quiet ==> self.voices@ == vs_pre && left@ == left_pre && right@ == right_pre,
                decreases NUM_VOICES - slot,
            {
                let has_voice: bool = self.voices[slot].is_some();
                if has_voice {
                    let element = crate::pool::slot_mut(&mut self.voices, slot);
                    match element {
                        Some(v) => {
                            v.render(left, right, block_start, block_end, sample_rate, params);
                        },
                        None => {},
                    }
                }
                slot = slot + 1;
            }
            let ghost left_mid = left@;
            let ghost right_mid = right@;
            if params.delta {
                subtract_dry(left, right, &dry_l, &dry_r, block_start, block_end);
            }
            proof {
                if quiet {
                    assert(left_pre == left_entry && right_pre == right_entry);
                    assert(left_mid == left_pre && right_mid == right_pre);
                    assert forall|j: int|
                        0 <= j < num_samples && !(block_start <= j < block_end) implies (
                    #[trigger] left@[j]) == left_entry[j] && (#[trigger] right@[j])
                        == right_entry[j] by {};
                    assert forall|j: int|
                        block_start <= j < block_end implies (#[trigger] left@[j]) == (
                    if params.delta {
                        0i64
                    } else {
                        left_entry[j]
                    }) && (#[trigger] right@[j]) == (if params.delta {
                        0i64
                    } else {
                        right_entry[j]
                    }) by {
                        if params.delta {
                            assert(left@[j] == crate::fixed::fx_sat(left_mid[j] - dry_l@[j
                                - block_start]));
                            assert(dry_l@[j - block_start] == left_pre[block_start + (j
                                - block_start)]);
                            assert(left_pre[block_start + (j - block_start)] == left_pre[j]);
                            assert(right@[j] == crate::fixed::fx_sat(right_mid[j] - dry_r@[j
                                - block_start]));
                            assert(dry_r@[j - block_start] == right_pre[block_start + (j
                                - block_start)]);
                            assert(right_pre[block_start + (j - block_start)] == right_pre[j]);
                        }
                    };
                    assert forall|j: int|
                        0 <= j < block_start implies (#[trigger] left_entry[j]) == (
                    if params.delta {
                        0i64
                    } else {
                        old(left)@[j]
                    }) && (#[trigger] right_entry[j]) == (if params.delta {
                        0i64
                    } else {
                        old(right)@[j]
                    }) by {};
                    assert forall|j: int|
                        block_start <= j < num_samples implies (#[trigger] left_entry[j]) == old(
                        left,
                    )@[j] && (#[trigger] right_entry[j]) == old(right)@[j] by {};
                }
            }
            let ghost vs_before_retire = self.voices@;
            let ghost out_before_retire = out@;
            self.retire_finished_voices(block_end as u32, &mut out);
            proof {
                if quiet {
                    assert(forall|j: int|
                        0 <= j < NUM_VOICES ==> (#[trigger] vs_before_retire[j]) is None);
                    assert(self.voices@ =~= vs_before_retire);
                    crate::pool::lemma_retire_notes_silent(vs_before_retire, NUM_VOICES as int,
                        block_end as u32);
                    assert(out@ =~= out_before_retire);
                }
            }
            proof {
                if quiet {
                    assert forall|k: int| 0 <= k < block_end implies (#[trigger] left@[k]) == (
                    if params.delta {
                        0i64
                    } else {
                        old(left)@[k]
                    }) by {
                        if k < block_start {
                            assert(left@[k] == left_entry[k]);
                            assert(left_entry[k] == (if params.delta {
                                0i64
                            } else {
                                old(left)@[k]
                            }));
                        } else {
                            assert(left@[k] == (if params.delta {
                                0i64
                            } else {
                                left_entry[k]
                            }));
                            if !params.delta {
                                assert(left_entry[k] == old(left)@[k]);
                            }
                        }
                    };
                    assert forall|k: int| 0 <= k < block_end implies (#[trigger] right@[k]) == (
                    if params.delta {
                        0i64
                    } else {
                        old(right)@[k]
                    }) by {
                        if k < block_start {
                            assert(right@[k] == right_entry[k]);
                            assert(right_entry[k] == (if params.delta {
                                0i64
                            } else {
                                old(right)@[k]
                            }));
                        } else {
                            assert(right@[k] == (if params.delta {
                                0i64
                            } else {
                                right_entry[k]
                            }));
                            if !params.delta {
                                assert(right_entry[k] == old(right)@[k]);
                            }
                        }
                    };
                    assert forall|k: int|
                        block_end <= k < num_samples implies (#[trigger] left@[k]) == old(
                        left,
                    )@[k] by {
                        assert(left@[k] == left_entry[k]);
                        assert(left_entry[k] == old(left)@[k]);
                    };
                    assert forall|k: int|
                        block_end <= k < num_samples implies (#[trigger] right@[k]) == old(
                        right,
                    )@[k] by {
                        assert(right@[k] == right_entry[k]);
                        assert(right_entry[k] == old(right)@[k]);
                    };
                }
            }
            block_start = block_end;
            block_end = if num_samples - block_start > crate::MAX_BLOCK_SIZE {
                block_start + crate::MAX_BLOCK_SIZE
            } else {
                num_samples
            };
        }
        out
    }
}

} // verus!
