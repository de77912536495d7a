//! Tests for the display bridge: the verified frame computation and the
//! lock-free cells it is published through.

use scale_colorizr::display::decode_freq;
use scale_colorizr::display::DisplayBridge;
use scale_colorizr::engine::ScaleColorizr;
use scale_colorizr::events::NoteEvent;

fn colored_engine() -> ScaleColorizr {
    let mut e = ScaleColorizr::new();
    e.initialize(44100);
    let events = vec![NoteEvent::NoteOn {
        timing: 0,
        voice_id: None,
        channel: 0,
        note: 69,
        velocity: 65536,
    }];
    let mut left = vec![1000; 8];
    let mut right = vec![1000; 8];
    e.process(&mut left, &mut right, &events);
    e
}

#[test]
fn frequency_frame_mirrors_the_pool() {
    let e = colored_engine();
    let frame = e.frequency_frame();
    assert_eq!(frame.len(), 1024);
    // Slot 0, band 0 carries the voice's fundamental, encoded as value + 1.
    let f0 = e.voices[0].as_ref().unwrap().filters[0].frequency;
    assert_eq!(f0, 110000);
    assert_eq!(frame[0], f0 + 1);
    // Band 3 sits at the fourth harmonic.
    assert_eq!(frame[3], 4 * 110000 + 1);
    // Empty slots publish the explicit unused marker.
    assert_eq!(frame[8], 0);
    assert_eq!(frame[1023], 0);
}

#[test]
fn coefficient_frame_mirrors_the_filters() {
    let e = colored_engine();
    let frame = e.coefficient_frame();
    assert_eq!(frame.len(), 5120);
    let c = e.voices[0].as_ref().unwrap().filters[0].coefficients;
    assert_eq!(frame[0], c.b0 as u64);
    assert_eq!(frame[1], c.b1 as u64);
    assert_eq!(frame[2], c.b2 as u64);
    assert_eq!(frame[3], c.a1 as u64);
    assert_eq!(frame[4], c.a2 as u64);
    // Empty slots publish zeros.
    assert_eq!(frame[40], 0);
}

#[test]
fn publish_and_read_back_through_the_cells() {
    let e = colored_engine();
    let bridge = DisplayBridge::new();
    e.publish_displays(&bridge, true);
    let f0 = e.voices[0].as_ref().unwrap().filters[0].frequency;
    assert_eq!(bridge.read_frequency(0, 0), Some(f0));
    assert_eq!(bridge.read_frequency(0, 2), Some(3 * 110000));
    // An empty slot reads as unused.
    assert_eq!(bridge.read_frequency(1, 0), None);
    let c = e.voices[0].as_ref().unwrap().filters[0].coefficients;
    assert_eq!(bridge.read_coefficient(0, 0, 0), c.b0 as u64);
    assert_eq!(bridge.read_coefficient(0, 0, 4), c.a2 as u64);
}

#[test]
fn no_observer_means_no_publication() {
    let e = colored_engine();
    let bridge = DisplayBridge::new();
    e.publish_displays(&bridge, false);
    // Nothing was computed or stored: every cell still reads unused.
    assert_eq!(bridge.read_frequency(0, 0), None);
    assert_eq!(bridge.read_coefficient(0, 0, 0), 0);
}

#[test]
fn frequency_encoding_roundtrip() {
    assert_eq!(decode_freq(0), None);
    assert_eq!(decode_freq(1), Some(0));
    assert_eq!(decode_freq(110001), Some(110000));
}
