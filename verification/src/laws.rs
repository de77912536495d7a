//! The engine's global guarantees, stated and proved over the pool and
//! scheduler transition functions that the executable operations are
//! verified against.

use vstd::prelude::*;

use crate::events::NoteEvent;
use crate::events::VoiceTerminated;
use crate::pool::spec_active_count;
use crate::pool::spec_choke_notes_upto;
use crate::pool::spec_choke_transition;
use crate::pool::spec_first_free;
use crate::pool::spec_first_match;
use crate::pool::spec_oldest;
use crate::pool::spec_release_transition;
use crate::pool::spec_released_voice;
use crate::pool::spec_start_slot;
use crate::pool::spec_steals;
use crate::pool::lemma_first_free_bounds;
use crate::pool::lemma_first_match_bounds;
use crate::pool::lemma_oldest_bounds;
use crate::process::spec_applied_end;
use crate::process::spec_eff_timing;
use crate::process::spec_new_block_end;
use crate::process::spec_sorted;
use crate::voice::Voice;
use crate::NUM_VOICES;

verus! {

/// No more voices than slots.
proof fn lemma_active_count_le_len(vs: Seq<Option<Voice>>)
    ensures
        spec_active_count(vs) <= vs.len(),
    decreases vs.len(),
{
    if vs.len() > 0 {
        lemma_active_count_le_len(vs.drop_last());
    }
}

/// When every occupied slot lies below `n`, at most `n` voices are active.
proof fn lemma_active_count_confined(vs: Seq<Option<Voice>>, n: int)
    requires
        0 <= n,
        forall|j: int| n <= j < vs.len() ==> (#[trigger] vs[j]) is None,
    ensures
        spec_active_count(vs) <= n,
    decreases vs.len(),
{
    if vs.len() <= n {
        lemma_active_count_le_len(vs);
    } else {
        assert(vs[vs.len() - 1] is None);
        assert(forall|j: int|
            n <= j < vs.drop_last().len() ==> (#[trigger] vs.drop_last()[j]) is None);
        lemma_active_count_confined(vs.drop_last(), n);
    }
}

/// However many note-on events arrive, the number of simultaneously active
/// voices never exceeds the configured voice-count limit: starting from a
/// pool whose voices all sit below the limit, an allocation lands below the
/// limit again and keeps the count at or below it. Applying this lemma
/// inductively covers every sequence of note-on events.
pub proof fn lemma_note_on_respects_limit(vs: Seq<Option<Voice>>, limit: int, nv: Voice)
    requires
        vs.len() == NUM_VOICES,
        1 <= limit <= NUM_VOICES,
        forall|j: int| limit <= j < NUM_VOICES ==> (#[trigger] vs[j]) is None,
    ensures
        0 <= spec_start_slot(vs, limit) < limit,
        forall|j: int|
            limit <= j < NUM_VOICES ==> (#[trigger] vs.update(spec_start_slot(vs, limit), Some(
                nv,
            ))[j]) is None,
        spec_active_count(vs.update(spec_start_slot(vs, limit), Some(nv))) <= limit,
{
    lemma_first_free_bounds(vs, limit);
    let slot = spec_start_slot(vs, limit);
    if spec_first_free(vs, limit) >= 0 {
        assert(slot == spec_first_free(vs, limit));
    } else {
        lemma_oldest_bounds(vs, limit);
    }
    let post = vs.update(slot, Some(nv));
    assert(forall|j: int| limit <= j < NUM_VOICES ==> (#[trigger] post[j]) is None);
    lemma_active_count_confined(post, limit);
}

/// When the pool is full up to the limit, the stolen slot is exactly the
/// one holding the voice with the smallest allocation number: the oldest
/// allocated voice is always the one stolen next.
pub proof fn lemma_steal_oldest(vs: Seq<Option<Voice>>, limit: int)
    requires
        vs.len() == NUM_VOICES,
        1 <= limit <= NUM_VOICES,
        spec_steals(vs, limit),
    ensures
        spec_start_slot(vs, limit) == spec_oldest(vs, limit),
        vs[spec_start_slot(vs, limit)] is Some,
        forall|j: int|
            0 <= j < limit ==> vs[spec_start_slot(vs, limit)]->0.internal_voice_id <= (
            #[trigger] vs[j])->0.internal_voice_id,
{
    lemma_first_free_bounds(vs, limit);
    lemma_oldest_bounds(vs, limit);
}

/// A note-off with an explicit voice id makes only a voice carrying that
/// very id transition to releasing, and changes nothing else; without an
/// id, exactly the voices matching channel and note transition.
pub proof fn lemma_release_addressing(
    vs: Seq<Option<Voice>>,
    voice_id: Option<i32>,
    channel: u8,
    note: u8,
    sample_rate: u32,
    release_ms: i64,
)
    ensures
        spec_release_transition(vs, voice_id, channel, note, sample_rate, release_ms).len()
            == vs.len(),
        voice_id matches Some(id) ==> forall|j: int|
            0 <= j < vs.len() && #[trigger] spec_release_transition(vs, voice_id, channel, note,
                sample_rate, release_ms)[j] != vs[j] ==> (vs[j] matches Some(v) && v.id == id
                && spec_release_transition(vs, voice_id, channel, note, sample_rate, release_ms)[j]
                == Some(spec_released_voice(v, sample_rate, release_ms))),
        voice_id is None ==> forall|j: int|
            0 <= j < vs.len() ==> (#[trigger] vs[j] matches Some(v) ==> (if v.channel == channel
                && v.note == note {
                spec_release_transition(vs, voice_id, channel, note, sample_rate, release_ms)[j]
                    == Some(spec_released_voice(v, sample_rate, release_ms))
            } else {
                spec_release_transition(vs, voice_id, channel, note, sample_rate, release_ms)[j]
                    == vs[j]
            })),
{
    let post = spec_release_transition(vs, voice_id, channel, note, sample_rate, release_ms);
    if voice_id is Some {
        lemma_first_match_bounds(vs, vs.len() as int, voice_id, channel, note);
        let fm = spec_first_match(vs, vs.len() as int, voice_id, channel, note);
        assert forall|j: int| 0 <= j < vs.len() && #[trigger] post[j] != vs[j] implies (
        vs[j] matches Some(v) && v.id == voice_id->0 && post[j] == Some(spec_released_voice(v,
            sample_rate, release_ms))) by {
            if fm >= 0 {
                assert(j == fm);
            }
        };
    }
}

/// The slot whose destroyed voice produced the `k`-th notification of a
/// choke without an explicit id over the first `n` slots.
pub open spec fn spec_choke_note_slot(
    vs: Seq<Option<Voice>>,
    channel: u8,
    note: u8,
    timing: u32,
    n: int,
    k: int,
) -> int
    decreases n,
{
    if n <= 0 {
        -1
    } else {
        let plen = spec_choke_notes_upto(vs, n - 1, None, channel, note, timing).len();
        if k < plen {
            spec_choke_note_slot(vs, channel, note, timing, n - 1, k)
        } else {
            n - 1
        }
    }
}

/// Every termination notification a choke without an explicit id emits
/// carries the id stored in the destroyed voice itself, found through the
/// channel-and-note fallback addressing, not an id supplied by the event:
/// the `k`-th notification comes from its witness slot, whose voice matches
/// by channel and note, and echoes that voice's own id.
pub proof fn lemma_choke_echoes_matched_id(
    vs: Seq<Option<Voice>>,
    channel: u8,
    note: u8,
    timing: u32,
    n: int,
    k: int,
)
    requires
        n <= vs.len(),
        0 <= k < spec_choke_notes_upto(vs, n, None, channel, note, timing).len(),
    ensures
        ({
            let j = spec_choke_note_slot(vs, channel, note, timing, n, k);
            &&& 0 <= j < n
            &&& vs[j] matches Some(v) && v.channel == channel && v.note == note
                && spec_choke_notes_upto(vs, n, None, channel, note, timing)[k]
                == (VoiceTerminated { timing, voice_id: v.id, channel, note })
        }),
    decreases n,
{
    if n > 0 {
        let plen = spec_choke_notes_upto(vs, n - 1, None, channel, note, timing).len();
        if k < plen {
            lemma_choke_echoes_matched_id(vs, channel, note, timing, n - 1, k);
        }
    }
}

/// The scheduler applies exactly the events due at or before the sub-block
/// start, leaves none of them pending, and never lets the sub-block run
/// past the next pending event: an event timestamp strictly inside a
/// sub-block shortens it to end exactly there, so every event is applied at
/// its precise sample.
pub proof fn lemma_sub_block_respects_events(
    events: Seq<NoteEvent>,
    idx: int,
    block_start: int,
    block_end: int,
    num_samples: int,
)
    requires
        spec_sorted(events),
        0 <= idx <= events.len(),
        0 <= block_start < num_samples,
        block_start < block_end <= num_samples,
    ensures
        ({
            let k = spec_applied_end(events, idx, block_start, num_samples);
            let be = spec_new_block_end(events, k, block_end, num_samples);
            &&& idx <= k <= events.len()
            &&& forall|i: int|
                idx <= i < k ==> spec_eff_timing(#[trigger] events[i], num_samples)
                    <= block_start
            &&& forall|i: int|
                k <= i < events.len() ==> spec_eff_timing(#[trigger] events[i], num_samples)
                    > block_start
            &&& forall|i: int|
                k <= i < events.len() ==> spec_eff_timing(#[trigger] events[i], num_samples)
                    >= be
            &&& block_start < be <= block_end
        }),
    decreases events.len() - idx,
{
    let k = spec_applied_end(events, idx, block_start, num_samples);
    if idx < events.len() && spec_eff_timing(events[idx], num_samples) <= block_start {
        lemma_sub_block_respects_events(events, idx + 1, block_start, block_end, num_samples);
    } else {
        assert forall|i: int|
            k <= i < events.len() implies spec_eff_timing(#[trigger] events[i], num_samples)
            > block_start by {
            assert(events[k].spec_timing() <= events[i].spec_timing());
        };
        assert forall|i: int|
            k <= i < events.len() implies spec_eff_timing(#[trigger] events[i], num_samples)
            >= spec_new_block_end(events, k, block_end, num_samples) by {
            assert(events[k].spec_timing() <= events[i].spec_timing());
        };
    }
}

/// A voice allocated into a free slot and then immediately choked by its
/// own id produces exactly one termination notification (the choke finds
/// exactly that voice) and leaves its slot free again, so the next
/// allocation reuses it without stealing.
pub proof fn lemma_allocate_choke_roundtrip(
    vs: Seq<Option<Voice>>,
    limit: int,
    nv: Voice,
    channel: u8,
    note: u8,
)
    requires
        vs.len() == NUM_VOICES,
        1 <= limit <= NUM_VOICES,
        !spec_steals(vs, limit),
        forall|j: int|
            0 <= j < NUM_VOICES ==> ((#[trigger] vs[j]) matches Some(v) ==> v.id != nv.id),
    ensures
        ({
            let slot = spec_start_slot(vs, limit);
            let vs1 = vs.update(slot, Some(nv));
            let vs2 = spec_choke_transition(vs1, Some(nv.id), channel, note);
            &&& 0 <= slot < limit
            &&& spec_first_match(vs1, NUM_VOICES as int, Some(nv.id), channel, note) == slot
            &&& vs2 =~= vs.update(slot, None)
            &&& vs2[slot] is None
            &&& !spec_steals(vs2, limit)
        }),
{
    lemma_first_free_bounds(vs, limit);
    let slot = spec_start_slot(vs, limit);
    let vs1 = vs.update(slot, Some(nv));
    lemma_first_match_pinpoint(vs1, NUM_VOICES as int, slot, Some(nv.id), channel, note);
    let vs2 = spec_choke_transition(vs1, Some(nv.id), channel, note);
    assert(vs2 =~= vs.update(slot, None));
    lemma_free_slot_found(vs2, slot, limit);
}

/// A matching occupied slot preceded by no other match is exactly the
/// first match.
proof fn lemma_first_match_pinpoint(
    vs: Seq<Option<Voice>>,
    n: int,
    s: int,
    voice_id: Option<i32>,
    channel: u8,
    note: u8,
)
    requires
        0 <= s < n <= vs.len(),
        vs[s] matches Some(v) && v.spec_matches(voice_id, channel, note),
        forall|j: int|
            0 <= j < s ==> !((#[trigger] vs[j]) matches Some(v) && v.spec_matches(voice_id,
                channel, note)),
    ensures
        spec_first_match(vs, n, voice_id, channel, note) == s,
    decreases n,
{
    if n - 1 > s {
        lemma_first_match_pinpoint(vs, n - 1, s, voice_id, channel, note);
    } else {
        lemma_first_match_bounds(vs, n - 1, voice_id, channel, note);
    }
}

/// A free slot below the limit means the next allocation does not steal.
proof fn lemma_free_slot_found(vs: Seq<Option<Voice>>, s: int, limit: int)
    requires
        0 <= s < limit <= vs.len(),
        vs[s] is None,
    ensures
        !spec_steals(vs, limit),
{
    lemma_first_free_bounds(vs, limit);
    if spec_first_free(vs, limit) == -1 {
        assert(vs[s] is Some);
    }
}

} // verus!
