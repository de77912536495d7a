//! Scenario tests for the voice pool, the event scheduler and the block
//! processor.

use scale_colorizr::engine::ScaleColorizr;
use scale_colorizr::events::NoteEvent;
use scale_colorizr::events::VoiceTerminated;
use scale_colorizr::fixed::FX_ONE;
use scale_colorizr::params::EngineParams;

fn engine_at(sample_rate: u32) -> ScaleColorizr {
    let mut e = ScaleColorizr::new();
    e.initialize(sample_rate);
    e
}

fn note_on(timing: u32, voice_id: Option<i32>, channel: u8, note: u8) -> NoteEvent {
    NoteEvent::NoteOn { timing, voice_id, channel, note, velocity: 65536 }
}

fn zeros(n: usize) -> Vec<i64> {
    vec![0; n]
}

fn active_notes(e: &ScaleColorizr) -> Vec<u8> {
    e.voices.iter().filter_map(|v| v.as_ref().map(|v| v.note)).collect()
}

#[test]
fn voice_limit_one_steals_the_first_voice() {
    let mut e = engine_at(44100);
    let mut p = EngineParams::default();
    p.voice_count = 1;
    e.set_params(p);
    let events = vec![note_on(0, None, 0, 60), note_on(0, None, 0, 64)];
    let mut left = zeros(8);
    let mut right = zeros(8);
    let out = e.process(&mut left, &mut right, &events);
    // The voice for note 60 is stolen: exactly one termination notification,
    // carrying note 60's fallback id, and the one active voice now tracks
    // note 64 only.
    assert_eq!(out, vec![VoiceTerminated { timing: 0, voice_id: 60, channel: 0, note: 60 }]);
    assert_eq!(active_notes(&e), vec![64]);
    assert_eq!(e.voices[0].as_ref().unwrap().id, 64);
}

#[test]
fn stealing_always_takes_the_oldest_voice() {
    let mut e = engine_at(44100);
    let mut p = EngineParams::default();
    p.voice_count = 4;
    e.set_params(p);
    let events: Vec<NoteEvent> = (0..6).map(|n| note_on(0, None, 0, 40 + n)).collect();
    let mut left = zeros(4);
    let mut right = zeros(4);
    let out = e.process(&mut left, &mut right, &events);
    // Six notes through four slots: the two oldest are stolen, in age order.
    assert_eq!(
        out,
        vec![
            VoiceTerminated { timing: 0, voice_id: 40, channel: 0, note: 40 },
            VoiceTerminated { timing: 0, voice_id: 41, channel: 0, note: 41 },
        ]
    );
    let mut notes = active_notes(&e);
    notes.sort();
    assert_eq!(notes, vec![42, 43, 44, 45]);
    assert!(active_notes(&e).len() <= 4);
}

#[test]
fn note_off_with_id_releases_only_that_voice() {
    let mut e = engine_at(44100);
    let events = vec![note_on(0, Some(111), 0, 60), note_on(0, Some(222), 0, 60)];
    let mut left = zeros(4);
    let mut right = zeros(4);
    e.process(&mut left, &mut right, &events);
    let off = vec![NoteEvent::NoteOff { timing: 0, voice_id: Some(222), channel: 0, note: 60 }];
    e.process(&mut left, &mut right, &off);
    let releasing: Vec<(i32, bool)> =
        e.voices.iter().filter_map(|v| v.as_ref().map(|v| (v.id, v.releasing))).collect();
    assert_eq!(releasing, vec![(111, false), (222, true)]);
}

#[test]
fn note_off_without_id_releases_every_matching_voice() {
    let mut e = engine_at(44100);
    let events = vec![
        note_on(0, Some(111), 0, 60),
        note_on(0, Some(222), 0, 60),
        note_on(0, Some(333), 0, 61),
    ];
    let mut left = zeros(4);
    let mut right = zeros(4);
    e.process(&mut left, &mut right, &events);
    let off = vec![NoteEvent::NoteOff { timing: 0, voice_id: None, channel: 0, note: 60 }];
    e.process(&mut left, &mut right, &off);
    let releasing: Vec<(i32, bool)> =
        e.voices.iter().filter_map(|v| v.as_ref().map(|v| (v.id, v.releasing))).collect();
    assert_eq!(releasing, vec![(111, true), (222, true), (333, false)]);
}

#[test]
fn choke_echoes_the_matched_voice_id() {
    let mut e = engine_at(44100);
    // The host labeled this voice 777; the fallback scheme would call it 60.
    let events = vec![note_on(0, Some(777), 0, 60)];
    let mut left = zeros(4);
    let mut right = zeros(4);
    e.process(&mut left, &mut right, &events);
    let choke = vec![NoteEvent::Choke { timing: 2, voice_id: None, channel: 0, note: 60 }];
    let out = e.process(&mut left, &mut right, &choke);
    // The notification carries the matched voice's id, not the fallback id.
    assert_eq!(out, vec![VoiceTerminated { timing: 2, voice_id: 777, channel: 0, note: 60 }]);
    assert_eq!(active_notes(&e), Vec::<u8>::new());
}

#[test]
fn allocate_then_choke_roundtrip_frees_the_slot() {
    let mut e = engine_at(44100);
    let events = vec![
        note_on(0, Some(500), 2, 72),
        NoteEvent::Choke { timing: 0, voice_id: Some(500), channel: 2, note: 72 },
    ];
    let mut left = zeros(4);
    let mut right = zeros(4);
    let out = e.process(&mut left, &mut right, &events);
    // Exactly one termination notification, and the slot is free again.
    assert_eq!(out, vec![VoiceTerminated { timing: 0, voice_id: 500, channel: 2, note: 72 }]);
    assert!(e.voices.iter().all(|v| v.is_none()));
    // The next allocation reuses the pool without stealing.
    let out2 = e.process(&mut left, &mut right, &vec![note_on(0, None, 2, 40)]);
    assert_eq!(out2, Vec::<VoiceTerminated>::new());
    assert!(e.voices[0].is_some());
}

#[test]
fn retune_moves_only_the_frequency() {
    let mut e = engine_at(44100);
    let mut p = EngineParams::default();
    p.safety_switch = true;
    e.set_params(p);
    let events = vec![note_on(0, None, 0, 69)];
    let mut left = zeros(4);
    let mut right = zeros(4);
    e.process(&mut left, &mut right, &events);
    // Note 69 spreads 440 Hz over the half-bank.
    assert_eq!(e.voices[0].as_ref().unwrap().frequency, 110000);
    let retune = vec![NoteEvent::PolyTuning {
        timing: 0,
        voice_id: None,
        channel: 0,
        note: 69,
        tuning_cents: 1200,
    }];
    e.process(&mut left, &mut right, &retune);
    // One octave up from note 69.
    assert_eq!(e.voices[0].as_ref().unwrap().frequency, 880000);
}

#[test]
fn safety_limit_leaves_bands_beyond_nyquist_untouched() {
    let mut e = engine_at(44100);
    let events = vec![note_on(0, None, 0, 127)];
    let mut left = vec![1000; 16];
    let mut right = vec![1000; 16];
    e.process(&mut left, &mut right, &events);
    let v = e.voices[0].as_ref().unwrap();
    assert_eq!(v.frequency, 3135963);
    // Band 7 sits at 8 * 3135.963 Hz, past the 22050 Hz Nyquist bound: it
    // is left as an identity pass-through, never configured.
    assert_eq!(v.filters[7].frequency, 0);
    assert_eq!(v.filters[7].coefficients.b0, FX_ONE);
    assert_eq!(v.filters[7].coefficients.a1, 0);
    // Band 6 is still below Nyquist and was configured.
    assert_eq!(v.filters[6].frequency, 7 * 3135963);
    assert_ne!(v.filters[6].coefficients.a1, 0);
}

#[test]
fn delta_mode_with_no_voices_outputs_silence() {
    let mut e = engine_at(48000);
    let mut p = EngineParams::default();
    p.delta = true;
    e.set_params(p);
    let mut left: Vec<i64> = (0..100).map(|i| (i as i64) * 7777 - 300000).collect();
    let mut right: Vec<i64> = (0..100).map(|i| 100000 - (i as i64) * 555).collect();
    let out = e.process(&mut left, &mut right, &Vec::new());
    assert_eq!(out, Vec::<VoiceTerminated>::new());
    assert!(left.iter().all(|&s| s == 0));
    assert!(right.iter().all(|&s| s == 0));
}

#[test]
fn event_inside_buffer_splits_the_block_exactly() {
    // Processing a buffer with a note-on at sample 5 must equal processing
    // the first five samples alone and then the rest with the note-on at
    // its start: the engine applies the event at its exact sample.
    let input_l: Vec<i64> = (0..16).map(|i| (i as i64) * 1000).collect();
    let input_r: Vec<i64> = (0..16).map(|i| 50000 - (i as i64) * 2000).collect();

    let mut a = engine_at(44100);
    let mut al = input_l.clone();
    let mut ar = input_r.clone();
    a.process(&mut al, &mut ar, &vec![note_on(5, None, 0, 60)]);

    let mut b = engine_at(44100);
    let mut b1l: Vec<i64> = input_l[0..5].to_vec();
    let mut b1r: Vec<i64> = input_r[0..5].to_vec();
    b.process(&mut b1l, &mut b1r, &Vec::new());
    let mut b2l: Vec<i64> = input_l[5..].to_vec();
    let mut b2r: Vec<i64> = input_r[5..].to_vec();
    b.process(&mut b2l, &mut b2r, &vec![note_on(0, None, 0, 60)]);

    assert_eq!(&al[0..5], &b1l[..]);
    assert_eq!(&ar[0..5], &b1r[..]);
    assert_eq!(&al[5..], &b2l[..]);
    assert_eq!(&ar[5..], &b2r[..]);
    // Before the event there is no voice, so those samples pass unchanged.
    assert_eq!(&al[0..5], &input_l[0..5]);
    // From the event on, the filter bank audibly colors the signal.
    assert_ne!(&al[5..], &input_l[5..]);
}

#[test]
fn finished_release_retires_the_voice_with_one_notification() {
    let mut e = engine_at(44100);
    let mut left = zeros(128);
    let mut right = zeros(128);
    e.process(&mut left, &mut right, &vec![note_on(0, Some(9), 0, 50)]);
    // Default release is 10 ms at 44.1 kHz: 441 envelope steps, so the
    // voice ends inside a 512-sample buffer, at a sub-block boundary.
    let mut left2 = zeros(512);
    let mut right2 = zeros(512);
    let off = vec![NoteEvent::NoteOff { timing: 0, voice_id: Some(9), channel: 0, note: 50 }];
    let out = e.process(&mut left2, &mut right2, &off);
    assert_eq!(out, vec![VoiceTerminated { timing: 448, voice_id: 9, channel: 0, note: 50 }]);
    assert!(e.voices.iter().all(|v| v.is_none()));
}

#[test]
fn reset_drops_all_voices_silently() {
    let mut e = engine_at(44100);
    let mut left = zeros(4);
    let mut right = zeros(4);
    e.process(&mut left, &mut right, &vec![note_on(0, None, 0, 60), note_on(0, None, 1, 61)]);
    assert_eq!(active_notes(&e).len(), 2);
    e.reset();
    assert!(e.voices.iter().all(|v| v.is_none()));
}

#[test]
fn unmatched_events_are_no_ops() {
    let mut e = engine_at(44100);
    let mut left = zeros(4);
    let mut right = zeros(4);
    let events = vec![
        NoteEvent::NoteOff { timing: 0, voice_id: None, channel: 0, note: 60 },
        NoteEvent::Choke { timing: 0, voice_id: Some(5), channel: 0, note: 60 },
        NoteEvent::PolyTuning { timing: 0, voice_id: None, channel: 0, note: 60, tuning_cents: 0 },
    ];
    let out = e.process(&mut left, &mut right, &events);
    assert_eq!(out, Vec::<VoiceTerminated>::new());
    assert!(e.voices.iter().all(|v| v.is_none()));
}

#[test]
fn out_of_range_timestamps_are_clamped_into_the_buffer() {
    let mut e = engine_at(44100);
    let mut left = zeros(8);
    let mut right = zeros(8);
    // A timestamp past the buffer is clamped to its last sample and the
    // event still lands.
    e.process(&mut left, &mut right, &vec![note_on(1000, None, 0, 60)]);
    assert_eq!(active_notes(&e), vec![60]);
}

#[test]
fn fresh_engine_is_silent_and_empty() {
    let e = ScaleColorizr::default();
    assert!(e.voices.iter().all(|v| v.is_none()));
    assert_eq!(e.voices.len(), scale_colorizr::NUM_VOICES);
    assert_eq!(e.params.voice_count, 16);
    assert!(e.params.safety_switch);
    assert!(!e.params.delta);
    assert_eq!(e.next_internal_voice_id, 0);
}

#[test]
fn subtract_dry_produces_the_delta_signal() {
    let mut left: Vec<i64> = vec![10, 20, 30, 40];
    let mut right: Vec<i64> = vec![-10, -20, -30, -40];
    let dry_l: Vec<i64> = vec![5, 7];
    let dry_r: Vec<i64> = vec![-5, -7];
    scale_colorizr::process::subtract_dry(&mut left, &mut right, &dry_l, &dry_r, 1, 3);
    assert_eq!(left, vec![10, 15, 23, 40]);
    assert_eq!(right, vec![-10, -15, -23, -40]);
}
