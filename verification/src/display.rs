//! The display bridge: lock-free cells the audio thread overwrites at block
//! granularity and an observer thread reads opportunistically.
//!
//! Each (voice slot, band) pair owns independent single-writer atomic cells,
//! so no torn write is ever larger than one cell; readers may see a stale or
//! torn frame but neither side ever blocks. The frame values themselves are
//! computed by verified code; only the cell operations are trusted.

use vstd::prelude::*;

use crate::engine::ScaleColorizr;
use crate::voice::Voice;
use crate::NUM_FILTERS;
use crate::NUM_VOICES;

verus! {

/// The frequency cell count: one per (voice slot, band).
pub const FREQ_CELLS: usize = 1024;

/// The coefficient cell count: five per (voice slot, band).
pub const COEFF_CELLS: usize = 5120;

#[verifier::external_type_specification]
#[verifier::external_body]
#[verifier::reject_recursive_types(T)]
pub struct ExAtomicCell<T>(crossbeam::atomic::AtomicCell<T>);

/// Relies on crossbeam's `AtomicCell::new`: builds a cell initially holding
/// `v`.
#[verifier::external_body]
fn new_cell(v: u64) -> crossbeam::atomic::AtomicCell<u64> {
    crossbeam::atomic::AtomicCell::new(v)
}

/// Relies on crossbeam's `AtomicCell::store` on a `u64`, which is a
/// lock-free atomic store: the writer never blocks, and a concurrent reader
/// observes either the old or the new value.
#[verifier::external_body]
fn cell_store(cell: &crossbeam::atomic::AtomicCell<u64>, v: u64) {
    cell.store(v)
}

/// Relies on crossbeam's `AtomicCell::load` on a `u64`: a lock-free atomic
/// read. Another thread may store at any time, so nothing is promised about
/// the value.
#[verifier::external_body]
fn cell_load(cell: &crossbeam::atomic::AtomicCell<u64>) -> u64 {
    cell.load()
}

/// A published per-band frequency: zero marks an unused slot, any other
/// value is the frequency in millihertz plus one.
pub open spec fn spec_encode_freq(f: Option<u64>) -> u64 {
    match f {
        None => 0u64,
        Some(x) => if x == u64::MAX {
            u64::MAX
        } else {
            (x + 1) as u64
        },
    }
}

/// Decode a published per-band frequency.
pub open spec fn spec_decode_freq(e: u64) -> Option<u64> {
    if e == 0 {
        None
    } else {
        Some((e - 1) as u64)
    }
}

/// Encoding then decoding a frequency gives it back.
pub proof fn lemma_freq_roundtrip(f: Option<u64>)
    requires
        f matches Some(x) ==> x < u64::MAX,
    ensures
        spec_decode_freq(spec_encode_freq(f)) == f,
{
}

/// The frequency-frame entry for one slot and band: the band's last
/// configured center frequency, or the unused marker for an empty slot.
pub open spec fn spec_freq_entry(ov: Option<Voice>, band: int) -> u64 {
    match ov {
        Some(v) => spec_encode_freq(Some(v.filters@[band].frequency)),
        None => spec_encode_freq(None),
    }
}

/// The coefficient-frame entry for one slot, band and coefficient index
/// (the prenormalized `b0, b1, b2, a1, a2` in that order), as raw bits;
/// zero for an empty slot.
pub open spec fn spec_coeff_entry(ov: Option<Voice>, band: int, k: int) -> u64 {
    match ov {
        Some(v) => {
            let c = v.filters@[band].coefficients;
            if k == 0 {
                c.b0 as u64
            } else if k == 1 {
                c.b1 as u64
            } else if k == 2 {
                c.b2 as u64
            } else if k == 3 {
                c.a1 as u64
            } else {
                c.a2 as u64
            }
        },
        None => 0u64,
    }
}

fn encode_freq(f: u64) -> (r: u64)
    ensures
        r == spec_encode_freq(Some(f)),
{
    if f == u64::MAX {
        u64::MAX
    } else {
        f + 1
    }
}

/// Decode a frequency cell's value as the observer does.
pub fn decode_freq(e: u64) -> (r: Option<u64>)
    ensures
        r == spec_decode_freq(e),
{
    if e == 0 {
        None
    } else {
        Some(e - 1)
    }
}

/// The set of lock-free cells shared between the audio thread and the
/// observer. The audio thread is the only writer.
pub struct DisplayBridge {
    /// One frequency cell per (slot, band), flattened as `slot * 8 + band`.
    pub freq_cells: Vec<crossbeam::atomic::AtomicCell<u64>>,
    /// Five coefficient cells per (slot, band), flattened as
    /// `slot * 40 + band * 5 + k`.
    pub coeff_cells: Vec<crossbeam::atomic::AtomicCell<u64>>,
}

impl DisplayBridge {
    /// The bridge holds exactly one cell per published value.
    pub open spec fn wf(self) -> bool {
        &&& self.freq_cells@.len() == FREQ_CELLS
        &&& self.coeff_cells@.len() == COEFF_CELLS
    }

    /// A bridge with every cell marked unused.
    pub fn new() -> (r: DisplayBridge)
        ensures
            r.wf(),
    {
        let mut freq_cells: Vec<crossbeam::atomic::AtomicCell<u64>> = Vec::new();
        let mut i: usize = 0;
        while i < FREQ_CELLS
            invariant
                freq_cells@.len() == i,
                i <= FREQ_CELLS,
            decreases FREQ_CELLS - i,
        {
            freq_cells.push(new_cell(0));
            i = i + 1;
        }
        let mut coeff_cells: Vec<crossbeam::atomic::AtomicCell<u64>> = Vec::new();
        let mut j: usize = 0;
        while j < COEFF_CELLS
            invariant
                coeff_cells@.len() == j,
                j <= COEFF_CELLS,
            decreases COEFF_CELLS - j,
        {
            coeff_cells.push(new_cell(0));
            j = j + 1;
        }
        DisplayBridge { freq_cells, coeff_cells }
    }

    /// Read one frequency cell, best effort: the audio thread may overwrite
    /// the cell at any time, so the value may be stale.
    pub fn read_frequency(&self, slot: usize, band: usize) -> (r: Option<u64>)
        requires
            self.wf(),
            slot < NUM_VOICES,
            band < NUM_FILTERS,
        ensures
            true,
    {
        decode_freq(cell_load(&self.freq_cells[slot * 8 + band]))
    }

    /// Read one raw coefficient cell, best effort.
    pub fn read_coefficient(&self, slot: usize, band: usize, k: usize) -> (r: u64)
        requires
            self.wf(),
            slot < NUM_VOICES,
            band < NUM_FILTERS,
            k < 5,
    {
        cell_load(&self.coeff_cells[slot * 40 + band * 5 + k])
    }
}

impl ScaleColorizr {
    /// The frequency frame to publish: for every slot and band, the band's
    /// current frequency or the unused marker, flattened by
    /// `slot * 8 + band`.
    pub fn frequency_frame(&self) -> (r: Vec<u64>)
        requires
            self.wf(),
        ensures
            r@.len() == FREQ_CELLS,
            forall|t: int|
                0 <= t < FREQ_CELLS ==> #[trigger] r@[t] == spec_freq_entry(
                    self.voices@[t / 8],
                    t % 8,
                ),
    {
        let mut r: Vec<u64> = Vec::new();
        let mut t: usize = 0;
        while t < FREQ_CELLS
            invariant
                self.wf(),
                t <= FREQ_CELLS,
                r@.len() == t,
                forall|u: int|
                    0 <= u < t ==> #[trigger] r@[u] == spec_freq_entry(self.voices@[u / 8], u % 8),
            decreases FREQ_CELLS - t,
        {
            let slot: usize = t / 8;
            let band: usize = t % 8;
            let entry: u64 = match &self.voices[slot] {
                Some(v) => encode_freq(v.filters[band].frequency),
                None => 0,
            };
            r.push(entry);
            t = t + 1;
        }
        r
    }

    /// The coefficient frame to publish: the five prenormalized
    /// coefficients of every band as raw bits, flattened by
    /// `slot * 40 + band * 5 + k`; zero for empty slots.
    pub fn coefficient_frame(&self) -> (r: Vec<u64>)
        requires
            self.wf(),
        ensures
            r@.len() == COEFF_CELLS,
            forall|t: int|
                0 <= t < COEFF_CELLS ==> #[trigger] r@[t] == spec_coeff_entry(
                    self.voices@[t / 40],
                    (t % 40) / 5,
                    t % 5,
                ),
    {
        let mut r: Vec<u64> = Vec::new();
        let mut t: usize = 0;
        while t < COEFF_CELLS
            invariant
                self.wf(),
                t <= COEFF_CELLS,
                r@.len() == t,
                forall|u: int|
                    0 <= u < t ==> #[trigger] r@[u] == spec_coeff_entry(self.voices@[u / 40], (u
                        % 40) / 5, u % 5),
            decreases COEFF_CELLS - t,
        {
            let slot: usize = t / 40;
            let band: usize = (t % 40) / 5;
            let k: usize = t % 5;
            let entry: u64 = match &self.voices[slot] {
                Some(v) => {
                    let c = v.filters[band].coefficients;
                    let val: i64 = if k == 0 {
                        c.b0
                    } else if k == 1 {
                        c.b1
                    } else if k == 2 {
                        c.b2
                    } else if k == 3 {
                        c.a1
                    } else {
                        c.a2
                    };
                    val as u64
                },
                None => 0,
            };
            r.push(entry);
            t = t + 1;
        }
        r
    }

    /// Publish the pool's state for the observer, if (and only if) one is
    /// attached; with no observer no frame is computed, to avoid wasted
    /// work in headless hosting. The audio thread never blocks here: every
    /// store is a lock-free atomic write.
    pub fn publish_displays(&self, bridge: &DisplayBridge, observer_attached: bool)
        requires
            self.wf(),
            bridge.wf(),
    {
        if !observer_attached {
            return ;
        }
        let freqs: Vec<u64> = self.frequency_frame();
        let coeffs: Vec<u64> = self.coefficient_frame();
        let mut t: usize = 0;
        while t < FREQ_CELLS
            invariant
                bridge.wf(),
                freqs@.len() == FREQ_CELLS,
                t <= FREQ_CELLS,
            decreases FREQ_CELLS - t,
        {
            cell_store(&bridge.freq_cells[t], freqs[t]);
            t = t + 1;
        }
        let mut u: usize = 0;
        while u < COEFF_CELLS
            invariant
                bridge.wf(),
                coeffs@.len() == COEFF_CELLS,
                u <= COEFF_CELLS,
            decreases COEFF_CELLS - u,
        {
            cell_store(&bridge.coeff_cells[u], coeffs[u]);
            u = u + 1;
        }
    }
}

} // verus!
