//! Voice-pool lifecycle: allocation with oldest-first stealing, release,
//! choke, retune, and retirement of voices whose release has finished.
//!
//! Each operation's contract is an exact transition on the pool's sequence
//! of optional voices, stated through the spec functions in this module.

use vstd::prelude::*;

use crate::engine::ScaleColorizr;
use crate::envelope::Smoother;
use crate::events::spec_fallback_voice_id;
use crate::events::compute_fallback_voice_id;
use crate::events::VoiceTerminated;
use crate::filter::Biquad;
use crate::fixed::isqrt;
use crate::fixed::spec_isqrt;
use crate::fixed::FX_ONE;
use crate::tuning::clamped_cents;
use crate::tuning::freq_mhz_of_cents;
use crate::tuning::spec_clamped_cents;
use crate::tuning::spec_freq_mhz_of_cents;
use crate::voice::spec_default_biquad;
use crate::voice::Voice;
use crate::NUM_FILTERS;
use crate::NUM_VOICES;

verus! {

/// How many slots currently hold a voice.
pub open spec fn spec_active_count(vs: Seq<Option<Voice>>) -> int
    decreases vs.len(),
{
    if vs.len() == 0 {
        0
    } else {
        spec_active_count(vs.drop_last()) + if vs.last() is Some {
            1int
        } else {
            0int
        }
    }
}

/// The smallest empty slot among the first `n`, or -1 if they are all
/// occupied.
pub open spec fn spec_first_free(vs: Seq<Option<Voice>>, n: int) -> int
    decreases n,
{
    if n <= 0 {
        -1
    } else if spec_first_free(vs, n - 1) >= 0 {
        spec_first_free(vs, n - 1)
    } else if vs[n - 1] is None {
        n - 1
    } else {
        -1
    }
}

/// The occupied slot with the smallest allocation number among the first
/// `n`, or -1 if none is occupied: the voice-stealing target.
pub open spec fn spec_oldest(vs: Seq<Option<Voice>>, n: int) -> int
    decreases n,
{
    if n <= 0 {
        -1
    } else {
        let prev = spec_oldest(vs, n - 1);
        if vs[n - 1] is Some {
            if prev == -1 {
                n - 1
            } else if vs[n - 1]->0.internal_voice_id < vs[prev]->0.internal_voice_id {
                n - 1
            } else {
                prev
            }
        } else {
            prev
        }
    }
}

/// The slot a new voice lands in: the first free slot if one exists among
/// the configured voice count, else the oldest voice's slot.
pub open spec fn spec_start_slot(vs: Seq<Option<Voice>>, limit: int) -> int {
    if spec_first_free(vs, limit) >= 0 {
        spec_first_free(vs, limit)
    } else {
        spec_oldest(vs, limit)
    }
}

/// Allocation steals only when no slot among the first `limit` is free.
pub open spec fn spec_steals(vs: Seq<Option<Voice>>, limit: int) -> bool {
    spec_first_free(vs, limit) < 0
}

/// A first-free result is a free slot in range, and -1 means every slot in
/// range is occupied.
pub proof fn lemma_first_free_bounds(vs: Seq<Option<Voice>>, n: int)
    requires
        n <= vs.len(),
    ensures
        spec_first_free(vs, n) == -1 || (0 <= spec_first_free(vs, n) < n && vs[spec_first_free(
            vs,
            n,
        )] is None),
        spec_first_free(vs, n) == -1 ==> forall|j: int| 0 <= j < n ==> (#[trigger] vs[j]) is Some,
    decreases n,
{
    if n > 0 {
        lemma_first_free_bounds(vs, n - 1);
    }
}

/// When every slot in range is occupied, the oldest slot is in range,
/// occupied, and carries the minimal allocation number.
pub proof fn lemma_oldest_bounds(vs: Seq<Option<Voice>>, n: int)
    requires
        1 <= n <= vs.len(),
        forall|j: int| 0 <= j < n ==> (#[trigger] vs[j]) is Some,
    ensures
        0 <= spec_oldest(vs, n) < n,
        vs[spec_oldest(vs, n)] is Some,
        forall|j: int|
            0 <= j < n ==> vs[spec_oldest(vs, n)]->0.internal_voice_id <= (
            #[trigger] vs[j])->0.internal_voice_id,
    decreases n,
{
    if n > 1 {
        lemma_oldest_bounds(vs, n - 1);
    } else {
        assert(spec_oldest(vs, 0) == -1);
    }
}

/// What a note-on writes into its slot: fresh identity-configured filters,
/// a zero-starting attack ramp toward full amplitude, the velocity's square
/// root as amplitude scalar, and the note's fundamental divided across the
/// half-bank so the harmonics straddle the played pitch.
pub open spec fn spec_is_new_voice(
    nv: Voice,
    voice_id: Option<i32>,
    channel: u8,
    note: u8,
    internal_id: u64,
    velocity: u32,
    sample_rate: u32,
    attack_ms: i64,
) -> bool {
    &&& nv.id == (match voice_id {
        Some(id) => id,
        None => spec_fallback_voice_id(note, channel),
    })
    &&& nv.channel == channel
    &&& nv.note == note
    &&& nv.frequency == spec_freq_mhz_of_cents(spec_clamped_cents(note, 0)) / 4
    &&& nv.internal_voice_id == internal_id
    &&& nv.velocity_sqrt == spec_isqrt(velocity as int * 65536)
    &&& nv.filters@ == Seq::new(NUM_FILTERS as nat, |i: int| spec_default_biquad())
    &&& !nv.releasing
    &&& nv.amp_envelope == (Smoother {
        current: 0i64,
        target: 0i64,
        step: 0i64,
        steps_left: 0u64,
    }).spec_set_target(sample_rate, attack_ms, FX_ONE)
}

/// Inserting a fresh well-formed voice that carries the pool's next
/// allocation number, and then advancing the counter, preserves the
/// engine's invariant.
proof fn lemma_wf_after_insert(pre: ScaleColorizr, post: ScaleColorizr, slot: int, nv: Voice)
    requires
        pre.wf(),
        0 <= slot < NUM_VOICES,
        post.voices@ == pre.voices@.update(slot, Some(nv)),
        post.params.wf(),
        0 < post.sample_rate <= crate::envelope::MAX_SAMPLE_RATE,
        nv.wf(),
        nv.internal_voice_id == pre.next_internal_voice_id,
        post.next_internal_voice_id == pre.next_internal_voice_id + 1,
    ensures
        post.wf(),
{
    assert forall|i: int|
        0 <= i < NUM_VOICES implies ((#[trigger] post.voices@[i]) matches Some(v) ==> v.wf()) by {
        if i != slot {
            assert(post.voices@[i] == pre.voices@[i]);
        }
    };
    assert forall|i: int|
        0 <= i < NUM_VOICES implies ((#[trigger] post.voices@[i]) matches Some(v)
            ==> v.internal_voice_id < post.next_internal_voice_id) by {
        if i != slot {
            assert(post.voices@[i] == pre.voices@[i]);
        }
    };
    assert forall|i: int, j: int|
        0 <= i < j < NUM_VOICES implies ((#[trigger] post.voices@[i]) matches Some(v) ==> ((
        #[trigger] post.voices@[j]) matches Some(w) ==> v.internal_voice_id
            != w.internal_voice_id)) by {
        if i != slot {
            assert(post.voices@[i] == pre.voices@[i]);
        }
        if j != slot {
            assert(post.voices@[j] == pre.voices@[j]);
        }
    };
}

/// Read the allocation number of an occupied slot.
fn internal_id_of(ov: &Option<Voice>) -> (r: u64)
    requires
        (*ov) is Some,
    ensures
        r == (*ov)->0.internal_voice_id,
{
    match ov {
        Some(v) => v.internal_voice_id,
        None => 0,
    }
}

impl ScaleColorizr {
    /// Start a new voice with the given voice ID. If all slots within the
    /// configured voice count are in use, the oldest voice is stolen: its
    /// slot is overwritten and a termination notification for it is pushed,
    /// so the host can reclaim any modulation resources tied to its id.
    /// Returns the slot index of the new voice.
    pub fn start_voice(
        &mut self,
        sample_offset: u32,
        voice_id: Option<i32>,
        channel: u8,
        note: u8,
        velocity: u32,
        out: &mut Vec<VoiceTerminated>,
    ) -> (slot: usize)
        requires
            old(self).wf(),
            old(self).next_internal_voice_id < u64::MAX,
            velocity <= FX_ONE,
        ensures
            final(self).wf(),
            final(self).voices@.len() == NUM_VOICES,
            final(self).params == old(self).params,
            final(self).sample_rate == old(self).sample_rate,
            final(self).next_internal_voice_id == old(self).next_internal_voice_id + 1,
            slot == spec_start_slot(old(self).voices@, old(self).params.voice_count as int),
            0 <= slot < old(self).params.voice_count,
            forall|j: int|
                0 <= j < NUM_VOICES && j != slot ==> final(self).voices@[j] == old(
                    self,
                ).voices@[j],
            final(self).voices@[slot as int] matches Some(nv) && spec_is_new_voice(nv, voice_id,
                channel, note, old(self).next_internal_voice_id, velocity, old(self).sample_rate,
                old(self).params.attack_ms),
            !spec_steals(old(self).voices@, old(self).params.voice_count as int) ==> final(out)@
                == old(out)@ && old(self).voices@[slot as int] is None,
            spec_steals(old(self).voices@, old(self).params.voice_count as int) ==> (old(
                self,
            ).voices@[slot as int] matches Some(sv) && final(out)@ == old(out)@.push(
                VoiceTerminated {
                    timing: sample_offset,
                    voice_id: sv.id,
                    channel: sv.channel,
                    note: sv.note,
                },
            )),
    {
        let ghost vs0 = self.voices@;
        let limit: usize = self.params.voice_count;
        // Build the new voice first, exactly as the event describes it.
        let id: i32 = match voice_id {
            Some(id) => id,
            None => compute_fallback_voice_id(note, channel),
        };
        let frequency: u64 = freq_mhz_of_cents(clamped_cents(note, 0)) / 4;
        let vs_raw: u64 = isqrt((velocity as u64) * 65536);
        proof {
            assert(vs_raw <= 65536) by (nonlinear_arith)
                requires
                    (vs_raw as int) * (vs_raw as int) <= (velocity as int) * 65536,
                    velocity <= 65536,
                    vs_raw >= 0,
            ;
        }
        let velocity_sqrt: i64 = vs_raw as i64;
        let mut amp_envelope = Smoother::settled(0);
        amp_envelope.set_target(self.sample_rate, self.params.attack_ms, FX_ONE);
        let mut filters: Vec<Biquad> = Vec::new();
        let mut fi: usize = 0;
        while fi < NUM_FILTERS
            invariant
                filters@.len() == fi,
                fi <= NUM_FILTERS,
                forall|j: int| 0 <= j < fi ==> filters@[j] == spec_default_biquad(),
            decreases NUM_FILTERS - fi,
        {
            filters.push(Biquad::new(crate::filter::BiquadCoefficients::identity()));
            fi = fi + 1;
        }
        proof {
            assert(filters@ =~= Seq::new(NUM_FILTERS as nat, |i: int| spec_default_biquad()));
        }
        proof {
            assert(frequency >= 1 && frequency <= crate::tuning::MAX_FREQ_MHZ) by {
                assert(frequency == spec_freq_mhz_of_cents(spec_clamped_cents(note, 0)) / 4);
                assert(spec_freq_mhz_of_cents(spec_clamped_cents(note, 0)) / 4 >= 1
                    && spec_freq_mhz_of_cents(spec_clamped_cents(note, 0)) / 4
                    <= crate::tuning::MAX_FREQ_MHZ as int) by (nonlinear_arith)
                    requires
                        6875 <= spec_freq_mhz_of_cents(spec_clamped_cents(note, 0))
                            <= crate::tuning::MAX_FREQ_MHZ as int,
                ;
            };
        }
        let nv = Voice {
            id,
            channel,
            note,
            frequency,
            internal_voice_id: self.next_internal_voice_id,
            velocity_sqrt,
            filters,
            releasing: false,
            amp_envelope,
        };
        proof {
            assert(nv.wf());
        }
        self.next_internal_voice_id = self.next_internal_voice_id + 1;

        // Find the first free slot within the voice-count limit.
        let mut free: usize = limit;
        let mut i: usize = 0;
        while i < limit
            invariant
                i <= limit <= NUM_VOICES,
                free <= limit,
                self.voices@ == vs0,
                vs0.len() == NUM_VOICES,
                free == limit ==> spec_first_free(vs0, i as int) == -1,
                free < limit ==> free == spec_first_free(vs0, i as int),
            decreases limit - i,
        {
            if free == limit && self.voices[i].is_none() {
                free = i;
            }
            i = i + 1;
        }
        proof {
            lemma_first_free_bounds(vs0, limit as int);
        }
        if free < limit {
            let slot = free;
            self.voices.set(slot, Some(nv));
            proof {
                lemma_wf_after_insert(*old(self), *self, slot as int, nv);
            }
            return slot;
        }
        // No free slot: steal the voice with the smallest allocation number.
        proof {
            lemma_oldest_bounds(vs0, limit as int);
        }
        let mut best: usize = 0;
        let mut i2: usize = 1;
        proof {
            assert(spec_oldest(vs0, 0) == -1);
            assert(vs0[0] is Some);
            assert(spec_oldest(vs0, 1) == 0);
        }
        while i2 < limit
            invariant
                1 <= i2 <= limit <= NUM_VOICES,
                best < i2,
                self.voices@ == vs0,
                vs0.len() == NUM_VOICES,
                forall|j: int| 0 <= j < limit ==> (#[trigger] vs0[j]) is Some,
                best == spec_oldest(vs0, i2 as int),
            decreases limit - i2,
        {
            if internal_id_of(&self.voices[i2]) < internal_id_of(&self.voices[best]) {
                best = i2;
            }
            i2 = i2 + 1;
        }
        let slot = best;
        match &self.voices[slot] {
            Some(sv) => {
                out.push(
                    VoiceTerminated {
                        timing: sample_offset,
                        voice_id: sv.id,
                        channel: sv.channel,
                        note: sv.note,
                    },
                );
            },
            None => {},
        }
        self.voices.set(slot, Some(nv));
        proof {
            lemma_wf_after_insert(*old(self), *self, slot as int, nv);
        }
        slot
    }
}

} // verus!

verus! {

/// A voice after note-off: the releasing flag set and the envelope
/// reconfigured to decay to zero over the release time.
pub open spec fn spec_released_voice(v: Voice, sample_rate: u32, release_ms: i64) -> Voice {
    Voice {
        releasing: true,
        amp_envelope: v.amp_envelope.spec_set_target(sample_rate, release_ms, 0i64),
        ..v
    }
}

/// The first occupied slot among the first `n` whose voice matches the
/// addressing rule, or -1.
pub open spec fn spec_first_match(
    vs: Seq<Option<Voice>>,
    n: int,
    voice_id: Option<i32>,
    channel: u8,
    note: u8,
) -> int
    decreases n,
{
    if n <= 0 {
        -1
    } else if spec_first_match(vs, n - 1, voice_id, channel, note) >= 0 {
        spec_first_match(vs, n - 1, voice_id, channel, note)
    } else if vs[n - 1] matches Some(v) && v.spec_matches(voice_id, channel, note) {
        n - 1
    } else {
        -1
    }
}

/// A first-match result is an occupied matching slot in range, preceded by
/// no other match; -1 means no slot in range matches.
pub proof fn lemma_first_match_bounds(
    vs: Seq<Option<Voice>>,
    n: int,
    voice_id: Option<i32>,
    channel: u8,
    note: u8,
)
    requires
        n <= vs.len(),
    ensures
        ({
            let fm = spec_first_match(vs, n, voice_id, channel, note);
            &&& fm == -1 || (0 <= fm < n && (vs[fm] matches Some(v) && v.spec_matches(voice_id,
                channel, note)))
            &&& fm == -1 ==> forall|j: int|
                0 <= j < n ==> !((#[trigger] vs[j]) matches Some(v) && v.spec_matches(voice_id,
                    channel, note))
            &&& fm >= 0 ==> forall|j: int|
                0 <= j < fm ==> !((#[trigger] vs[j]) matches Some(v) && v.spec_matches(voice_id,
                    channel, note))
        }),
    decreases n,
{
    if n > 0 {
        lemma_first_match_bounds(vs, n - 1, voice_id, channel, note);
    }
}

/// One slot of the pointwise release map: a matching voice starts
/// releasing, everything else is untouched.
pub open spec fn spec_release_one(
    ov: Option<Voice>,
    voice_id: Option<i32>,
    channel: u8,
    note: u8,
    sample_rate: u32,
    release_ms: i64,
) -> Option<Voice> {
    match ov {
        Some(v) => if v.spec_matches(voice_id, channel, note) {
            Some(spec_released_voice(v, sample_rate, release_ms))
        } else {
            Some(v)
        },
        None => None,
    }
}

/// The pool after a note-off: with an explicit id, only the first matching
/// voice starts releasing; without one, every voice matching channel and
/// note does.
pub open spec fn spec_release_transition(
    vs: Seq<Option<Voice>>,
    voice_id: Option<i32>,
    channel: u8,
    note: u8,
    sample_rate: u32,
    release_ms: i64,
) -> Seq<Option<Voice>> {
    if voice_id is Some {
        let fm = spec_first_match(vs, vs.len() as int, voice_id, channel, note);
        if fm >= 0 {
            vs.update(fm, spec_release_one(vs[fm], voice_id, channel, note, sample_rate,
                release_ms))
        } else {
            vs
        }
    } else {
        Seq::new(vs.len(), |i: int| spec_release_one(vs[i], voice_id, channel, note, sample_rate,
            release_ms))
    }
}

/// One slot of the pointwise choke map: a matching voice is destroyed.
pub open spec fn spec_choke_one(
    ov: Option<Voice>,
    voice_id: Option<i32>,
    channel: u8,
    note: u8,
) -> Option<Voice> {
    match ov {
        Some(v) => if v.spec_matches(voice_id, channel, note) {
            None
        } else {
            Some(v)
        },
        None => None,
    }
}

/// The pool after a choke.
pub open spec fn spec_choke_transition(
    vs: Seq<Option<Voice>>,
    voice_id: Option<i32>,
    channel: u8,
    note: u8,
) -> Seq<Option<Voice>> {
    if voice_id is Some {
        let fm = spec_first_match(vs, vs.len() as int, voice_id, channel, note);
        if fm >= 0 {
            vs.update(fm, None)
        } else {
            vs
        }
    } else {
        Seq::new(vs.len(), |i: int| spec_choke_one(vs[i], voice_id, channel, note))
    }
}

/// The termination notifications a choke without an explicit id emits for
/// the first `n` slots, in slot order; each carries the destroyed voice's
/// own id and the event's channel and note.
pub open spec fn spec_choke_notes_upto(
    vs: Seq<Option<Voice>>,
    n: int,
    voice_id: Option<i32>,
    channel: u8,
    note: u8,
    timing: u32,
) -> Seq<VoiceTerminated>
    decreases n,
{
    if n <= 0 {
        Seq::empty()
    } else {
        let p = spec_choke_notes_upto(vs, n - 1, voice_id, channel, note, timing);
        match vs[n - 1] {
            Some(v) => if v.spec_matches(voice_id, channel, note) {
                p.push(VoiceTerminated { timing, voice_id: v.id, channel, note })
            } else {
                p
            },
            None => p,
        }
    }
}

/// A releasing voice whose envelope has decayed to exactly zero is done.
pub open spec fn spec_finished(v: Voice) -> bool {
    v.releasing && v.amp_envelope.current == 0
}

/// One slot of the retirement scan: finished voices leave the pool.
pub open spec fn spec_retire_one(ov: Option<Voice>) -> Option<Voice> {
    match ov {
        Some(v) => if spec_finished(v) {
            None
        } else {
            Some(v)
        },
        None => None,
    }
}

/// The notifications the retirement scan emits for the first `n` slots, in
/// slot order, carrying each retired voice's own identity.
pub open spec fn spec_retire_notes_upto(vs: Seq<Option<Voice>>, n: int, timing: u32) -> Seq<
    VoiceTerminated,
>
    decreases n,
{
    if n <= 0 {
        Seq::empty()
    } else {
        let p = spec_retire_notes_upto(vs, n - 1, timing);
        match vs[n - 1] {
            Some(v) => if spec_finished(v) {
                p.push(VoiceTerminated { timing, voice_id: v.id, channel: v.channel, note: v.note })
            } else {
                p
            },
            None => p,
        }
    }
}

/// A pool with no finished voice emits no retirement notifications.
pub proof fn lemma_retire_notes_silent(vs: Seq<Option<Voice>>, n: int, timing: u32)
    requires
        n <= vs.len(),
        forall|j: int|
            0 <= j < n ==> !((#[trigger] vs[j]) matches Some(v) && spec_finished(v)),
    ensures
        spec_retire_notes_upto(vs, n, timing) == Seq::<VoiceTerminated>::empty(),
    decreases n,
{
    if n > 0 {
        lemma_retire_notes_silent(vs, n - 1, timing);
    }
}

/// A mutable handle to one slot of the pool.
pub(crate) fn slot_mut(vs: &mut Vec<Option<Voice>>, i: usize) -> (element: &mut Option<Voice>)
    requires
        i < old(vs).len(),
    ensures
        *element == old(vs)@[i as int],
        final(vs)@ == old(vs)@.update(i as int, *final(element)),
{
    &mut vs[i]
}

impl ScaleColorizr {
    /// Start the release process for one or more voices by reconfiguring
    /// their amplitude envelopes to decay to zero over the release time.
    /// With an explicit voice id only the first matching voice is affected;
    /// without one, every voice matching channel and note is.
    pub fn start_release_for_voices(&mut self, voice_id: Option<i32>, channel: u8, note: u8)
        requires
            old(self).wf(),
        ensures
            final(self).wf(),
            final(self).voices@ == spec_release_transition(old(self).voices@, voice_id, channel,
                note, old(self).sample_rate, old(self).params.release_ms),
            final(self).params == old(self).params,
            final(self).sample_rate == old(self).sample_rate,
            final(self).next_internal_voice_id == old(self).next_internal_voice_id,
    {
        let ghost vs0 = self.voices@;
        let sample_rate: u32 = self.sample_rate;
        let release_ms: i64 = self.params.release_ms;
        let explicit: bool = voice_id.is_some();
        let mut done: bool = false;
        let mut i: usize = 0;
        while i < NUM_VOICES
            invariant
                i <= NUM_VOICES,
                old(self).wf(),
                self.voices@.len() == NUM_VOICES,
                vs0.len() == NUM_VOICES,
                vs0 == old(self).voices@,
                sample_rate == old(self).sample_rate,
                release_ms == old(self).params.release_ms,
                explicit == voice_id is Some,
                self.params == old(self).params,
                self.sample_rate == old(self).sample_rate,
                self.next_internal_voice_id == old(self).next_internal_voice_id,
                forall|j: int| i <= j < NUM_VOICES ==> self.voices@[j] == vs0[j],
                explicit ==> (done <==> spec_first_match(vs0, i as int, voice_id, channel, note)
                    >= 0),
                explicit && !done ==> self.voices@ == vs0,
                explicit && done ==> ({
                    let fm = spec_first_match(vs0, i as int, voice_id, channel, note);
                    self.voices@ == vs0.update(fm, spec_release_one(vs0[fm], voice_id, channel,
                        note, sample_rate, release_ms))
                }),
                !explicit ==> forall|j: int|
                    0 <= j < i ==> self.voices@[j] == spec_release_one(vs0[j], voice_id, channel,
                        note, sample_rate, release_ms),
                forall|j: int|
                    0 <= j < NUM_VOICES ==> ((#[trigger] self.voices@[j]) matches Some(v)
                        ==> v.wf()),
                forall|j: int|
                    0 <= j < NUM_VOICES ==> ((#[trigger] self.voices@[j]) matches Some(v)
                        ==> v.internal_voice_id < self.next_internal_voice_id),
                forall|j: int|
                    0 <= j < NUM_VOICES ==> ((#[trigger] self.voices@[j]) is Some <==> vs0[j]
                        is Some),
                forall|j: int|
                    0 <= j < NUM_VOICES ==> ((#[trigger] self.voices@[j]) matches Some(v) ==> (
                    vs0[j] matches Some(w) ==> v.internal_voice_id == w.internal_voice_id)),
            decreases NUM_VOICES - i,
        {
            let act: bool = !explicit || !done;
            let matched: bool = match &self.voices[i] {
                Some(v) => v.matches(voice_id, channel, note),
                None => false,
            };
            if matched && act {
                let element = slot_mut(&mut self.voices, i);
                match element {
                    Some(v) => {
                        v.releasing = true;
                        v.amp_envelope.set_target(sample_rate, release_ms, 0);
                    },
                    None => {},
                }
                done = true;
            }
            i = i + 1;
        }
        proof {
            if explicit {
                let fm = spec_first_match(vs0, NUM_VOICES as int, voice_id, channel, note);
                if !done {
                    assert(self.voices@ == spec_release_transition(vs0, voice_id, channel, note,
                        sample_rate, release_ms));
                }
            } else {
                assert(self.voices@ =~= Seq::new(vs0.len(), |j: int| spec_release_one(vs0[j],
                    voice_id, channel, note, sample_rate, release_ms)));
            }
            assert forall|i2: int, j2: int|
                0 <= i2 < j2 < NUM_VOICES implies ((#[trigger] self.voices@[i2]) matches Some(v)
                ==> ((#[trigger] self.voices@[j2]) matches Some(w) ==> v.internal_voice_id
                    != w.internal_voice_id)) by {
                if self.voices@[i2] is Some && self.voices@[j2] is Some {
                    assert(vs0[i2] is Some && vs0[j2] is Some);
                    assert(self.voices@[i2]->0.internal_voice_id
                        == vs0[i2]->0.internal_voice_id);
                    assert(self.voices@[j2]->0.internal_voice_id
                        == vs0[j2]->0.internal_voice_id);
                }
            };
        }
    }

    /// Immediately terminate one or more voices, freeing their slots and
    /// pushing a termination notification for each. The notification always
    /// carries the terminated voice's own id, even when it differs from the
    /// id the event supplied. With an explicit voice id only the first
    /// matching voice is choked; without one, every voice matching channel
    /// and note is.
    pub fn choke_voices(
        &mut self,
        sample_offset: u32,
        voice_id: Option<i32>,
        channel: u8,
        note: u8,
        out: &mut Vec<VoiceTerminated>,
    )
        requires
            old(self).wf(),
        ensures
            final(self).wf(),
            final(self).voices@ == spec_choke_transition(old(self).voices@, voice_id, channel,
                note),
            voice_id is Some ==> ({
                let fm = spec_first_match(old(self).voices@, NUM_VOICES as int, voice_id, channel,
                    note);
                if fm >= 0 {
                    final(out)@ == old(out)@.push(
                        VoiceTerminated {
                            timing: sample_offset,
                            voice_id: old(self).voices@[fm]->0.id,
                            channel,
                            note,
                        },
                    )
                } else {
                    final(out)@ == old(out)@
                }
            }),
            voice_id is None ==> final(out)@ == old(out)@ + spec_choke_notes_upto(
                old(self).voices@,
                NUM_VOICES as int,
                voice_id,
                channel,
                note,
                sample_offset,
            ),
            final(self).params == old(self).params,
            final(self).sample_rate == old(self).sample_rate,
            final(self).next_internal_voice_id == old(self).next_internal_voice_id,
    {
        let ghost vs0 = self.voices@;
        let explicit: bool = voice_id.is_some();
        let mut done: bool = false;
        let mut i: usize = 0;
        while i < NUM_VOICES
            invariant
                i <= NUM_VOICES,
                old(self).wf(),
                self.voices@.len() == NUM_VOICES,
                vs0.len() == NUM_VOICES,
                vs0 == old(self).voices@,
                explicit == voice_id is Some,
                self.params == old(self).params,
                self.sample_rate == old(self).sample_rate,
                self.next_internal_voice_id == old(self).next_internal_voice_id,
                forall|j: int| i <= j < NUM_VOICES ==> self.voices@[j] == vs0[j],
                explicit ==> (done <==> spec_first_match(vs0, i as int, voice_id, channel, note)
                    >= 0),
                explicit && !done ==> self.voices@ == vs0 && out@ == old(out)@,
                explicit && done ==> ({
                    let fm = spec_first_match(vs0, i as int, voice_id, channel, note);
                    self.voices@ == vs0.update(fm, None) && out@ == old(out)@.push(
                        VoiceTerminated {
                            timing: sample_offset,
                            voice_id: vs0[fm]->0.id,
                            channel,
                            note,
                        },
                    )
                }),
                !explicit ==> forall|j: int|
                    0 <= j < i ==> self.voices@[j] == spec_choke_one(vs0[j], voice_id, channel,
                        note),
                !explicit ==> out@ == old(out)@ + spec_choke_notes_upto(vs0, i as int, voice_id,
                    channel, note, sample_offset),
                forall|j: int|
                    0 <= j < NUM_VOICES ==> (#[trigger] self.voices@[j]) is Some ==> self.voices@[j]
                        == vs0[j],
            decreases NUM_VOICES - i,
        {
            let act: bool = !explicit || !done;
            let matched_id: Option<i32> = match &self.voices[i] {
                Some(v) => if v.matches(voice_id, channel, note) {
                    Some(v.id)
                } else {
                    None
                },
                None => None,
            };
            match matched_id {
                Some(vid) => if act {
                    out.push(
                        VoiceTerminated {
                            timing: sample_offset,
                            voice_id: vid,
                            channel,
                            note,
                        },
                    );
                    self.voices.set(i, None);
                    done = true;
                },
                None => {},
            }
            i = i + 1;
        }
        proof {
            if !explicit {
                assert(self.voices@ =~= Seq::new(vs0.len(), |j: int| spec_choke_one(vs0[j],
                    voice_id, channel, note)));
            }
            assert forall|i2: int, j2: int|
                0 <= i2 < j2 < NUM_VOICES implies ((#[trigger] self.voices@[i2]) matches Some(v)
                ==> ((#[trigger] self.voices@[j2]) matches Some(w) ==> v.internal_voice_id
                    != w.internal_voice_id)) by {
                if self.voices@[i2] is Some && self.voices@[j2] is Some {
                    assert(self.voices@[i2] == vs0[i2] && self.voices@[j2] == vs0[j2]);
                }
            };
        }
    }

    /// Overwrite the first matching voice's fundamental frequency with the
    /// note-to-frequency conversion of the note offset by the tuning delta;
    /// filter state is untouched.
    pub fn retune_voice(&mut self, voice_id: Option<i32>, channel: u8, note: u8, tuning_cents: i32)
        requires
            old(self).wf(),
        ensures
            final(self).wf(),
            ({
                let fm = spec_first_match(old(self).voices@, NUM_VOICES as int, voice_id, channel,
                    note);
                if fm >= 0 {
                    final(self).voices@ == old(self).voices@.update(fm, Some(
                        Voice {
                            frequency: spec_freq_mhz_of_cents(spec_clamped_cents(note,
                                tuning_cents)) as u64,
                            ..old(self).voices@[fm]->0
                        },
                    ))
                } else {
                    final(self).voices@ == old(self).voices@
                }
            }),
            final(self).params == old(self).params,
            final(self).sample_rate == old(self).sample_rate,
            final(self).next_internal_voice_id == old(self).next_internal_voice_id,
    {
        let ghost vs0 = self.voices@;
        let frequency: u64 = freq_mhz_of_cents(clamped_cents(note, tuning_cents));
        let mut done: bool = false;
        let mut i: usize = 0;
        while i < NUM_VOICES
            invariant
                i <= NUM_VOICES,
                old(self).wf(),
                self.voices@.len() == NUM_VOICES,
                vs0.len() == NUM_VOICES,
                vs0 == old(self).voices@,
                frequency == spec_freq_mhz_of_cents(spec_clamped_cents(note, tuning_cents)),
                6875 <= frequency <= crate::tuning::MAX_FREQ_MHZ,
                self.params == old(self).params,
                self.sample_rate == old(self).sample_rate,
                self.next_internal_voice_id == old(self).next_internal_voice_id,
                forall|j: int| i <= j < NUM_VOICES ==> self.voices@[j] == vs0[j],
                done <==> spec_first_match(vs0, i as int, voice_id, channel, note) >= 0,
                !done ==> self.voices@ == vs0,
                done ==> ({
                    let fm = spec_first_match(vs0, i as int, voice_id, channel, note);
                    self.voices@ == vs0.update(fm, Some(
                        Voice { frequency, ..vs0[fm]->0 },
                    ))
                }),
                forall|j: int|
                    0 <= j < NUM_VOICES ==> ((#[trigger] self.voices@[j]) matches Some(v)
                        ==> v.wf()),
                forall|j: int|
                    0 <= j < NUM_VOICES ==> ((#[trigger] self.voices@[j]) is Some <==> vs0[j]
                        is Some),
                forall|j: int|
                    0 <= j < NUM_VOICES ==> ((#[trigger] self.voices@[j]) matches Some(v) ==> (
                    vs0[j] matches Some(w) ==> v.internal_voice_id == w.internal_voice_id)),
            decreases NUM_VOICES - i,
        {
            let matched: bool = match &self.voices[i] {
                Some(v) => v.matches(voice_id, channel, note),
                None => false,
            };
            if matched && !done {
                let element = slot_mut(&mut self.voices, i);
                match element {
                    Some(v) => {
                        v.frequency = frequency;
                    },
                    None => {},
                }
                done = true;
            }
            i = i + 1;
        }
        proof {
            assert forall|i2: int, j2: int|
                0 <= i2 < j2 < NUM_VOICES implies ((#[trigger] self.voices@[i2]) matches Some(v)
                ==> ((#[trigger] self.voices@[j2]) matches Some(w) ==> v.internal_voice_id
                    != w.internal_voice_id)) by {
                if self.voices@[i2] is Some && self.voices@[j2] is Some {
                    assert(vs0[i2] is Some && vs0[j2] is Some);
                    assert(self.voices@[i2]->0.internal_voice_id
                        == vs0[i2]->0.internal_voice_id);
                    assert(self.voices@[j2]->0.internal_voice_id
                        == vs0[j2]->0.internal_voice_id);
                }
            };
        }
    }

    /// Scan every slot and destroy the voices whose release period has
    /// fully ended, pushing one termination notification for each.
    pub fn retire_finished_voices(&mut self, timing: u32, out: &mut Vec<VoiceTerminated>)
        requires
            old(self).wf(),
        ensures
            final(self).wf(),
            final(self).voices@ == Seq::new(old(self).voices@.len(), |j: int| spec_retire_one(
                old(self).voices@[j],
            )),
            final(out)@ == old(out)@ + spec_retire_notes_upto(old(self).voices@,
                NUM_VOICES as int, timing),
            final(self).params == old(self).params,
            final(self).sample_rate == old(self).sample_rate,
            final(self).next_internal_voice_id == old(self).next_internal_voice_id,
    {
        let ghost vs0 = self.voices@;
        let mut i: usize = 0;
        while i < NUM_VOICES
            invariant
                i <= NUM_VOICES,
                old(self).wf(),
                self.voices@.len() == NUM_VOICES,
                vs0.len() == NUM_VOICES,
                vs0 == old(self).voices@,
                self.params == old(self).params,
                self.sample_rate == old(self).sample_rate,
                self.next_internal_voice_id == old(self).next_internal_voice_id,
                forall|j: int| i <= j < NUM_VOICES ==> self.voices@[j] == vs0[j],
                forall|j: int| 0 <= j < i ==> self.voices@[j] == spec_retire_one(vs0[j]),
                out@ == old(out)@ + spec_retire_notes_upto(vs0, i as int, timing),
                forall|j: int|
                    0 <= j < NUM_VOICES ==> (#[trigger] self.voices@[j]) is Some ==> self.voices@[j]
                        == vs0[j],
            decreases NUM_VOICES - i,
        {
            let info: Option<(i32, u8, u8)> = match &self.voices[i] {
                Some(v) => if v.releasing && v.amp_envelope.current == 0 {
                    Some((v.id, v.channel, v.note))
                } else {
                    None
                },
                None => None,
            };
            match info {
                Some(f) => {
                    out.push(
                        VoiceTerminated {
                            timing,
                            voice_id: f.0,
                            channel: f.1,
                            note: f.2,
                        },
                    );
                    self.voices.set(i, None);
                },
                None => {},
            }
            i = i + 1;
        }
        proof {
            assert(self.voices@ =~= Seq::new(vs0.len(), |j: int| spec_retire_one(vs0[j])));
            assert forall|i2: int, j2: int|
                0 <= i2 < j2 < NUM_VOICES implies ((#[trigger] self.voices@[i2]) matches Some(v)
                ==> ((#[trigger] self.voices@[j2]) matches Some(w) ==> v.internal_voice_id
                    != w.internal_voice_id)) by {
                if self.voices@[i2] is Some && self.voices@[j2] is Some {
                    assert(self.voices@[i2] == vs0[i2] && self.voices@[j2] == vs0[j2]);
                }
            };
        }
    }
}

} // verus!
