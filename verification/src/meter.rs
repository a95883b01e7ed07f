//! Level metering shared between an audio callback and the interface.
//!
//! The callback keeps no time constant: it only retains the highest level
//! reached since the last read. Visual decay belongs to the interface, which
//! alone knows its refresh rate. What remains on the audio side is two atomic
//! writes, with no lock and no state to keep in sync.
//!
//! Levels are carried as the bit patterns of non-negative floats. For those,
//! bit-pattern order matches numeric order, so an integer maximum is the
//! numeric maximum and no compare-exchange loop is needed.

use vstd::prelude::*;
use std::sync::atomic::{AtomicU32, Ordering};

verus! {

/// Bit pattern of positive infinity; every finite positive float sits below
/// it, every negative value (sign bit set) and every not-a-number above it.
pub const INFINITY_BITS: u32 = 0x7F80_0000;

/// A level worth retaining: a finite, strictly positive amplitude.
pub open spec fn is_retained_level(bits: u32) -> bool {
    0 < bits && bits < INFINITY_BITS
}

/// Levels observed over one window, as float bit patterns.
#[derive(Debug, Clone, Copy, Default, PartialEq, Eq)]
pub struct LevelBits {
    /// Largest absolute value seen, in linear amplitude.
    pub peak: u32,
    /// Largest root-mean-square value among the observed blocks.
    pub rms: u32,
}

#[derive(Debug, Default)]
pub struct LevelMeter {
    peak: AtomicU32,
    rms: AtomicU32,
}

/// Whether a level is kept at all. Non-finite values, which a failing device
/// can produce, are refused because their bit pattern would stay pinned at
/// the top forever; zero and negative values carry no level.
pub fn admits_level(bits: u32) -> (admitted: bool)
    ensures
        admitted == is_retained_level(bits),
{
    0 < bits && bits < INFINITY_BITS
}

/// What a window can hold: nothing, or a level worth retaining.
pub open spec fn is_window_level(bits: u32) -> bool {
    bits == 0 || is_retained_level(bits)
}

/// The level a window reading stands for: the reading itself when it is a
/// level worth retaining, nothing otherwise.
fn window_level(bits: u32) -> (level: u32)
    ensures
        level == if is_retained_level(bits) { bits } else { 0 },
{
    if admits_level(bits) {
        bits
    } else {
        0
    }
}

/// Retains the maximum of `cell` and `bits` when `bits` is a level worth
/// keeping; returns whether it was offered to the cell.
pub fn store_max(cell: &AtomicU32, bits: u32) -> (offered: bool)
    ensures
        offered == is_retained_level(bits),
{
    if !admits_level(bits) {
        return false;
    }
    let _ = cell.fetch_max(bits, Ordering::Relaxed);
    true
}

impl LevelMeter {
    pub fn new() -> Self {
        LevelMeter { peak: AtomicU32::new(0), rms: AtomicU32::new(0) }
    }

    /// Folds one block's peak and root-mean-square levels into the window.
    /// Returns which of the two were offered.
    pub fn raise(&self, peak: u32, rms: u32) -> (offered: (bool, bool))
        ensures
            offered.0 == is_retained_level(peak),
            offered.1 == is_retained_level(rms),
    {
        let peak_offered = store_max(&self.peak, peak);
        let rms_offered = store_max(&self.rms, rms);
        (peak_offered, rms_offered)
    }

    /// Reads the levels and opens a fresh observation window.
    ///
    /// A window only ever holds nothing (zero) or a level worth retaining,
    /// since [`LevelMeter::raise`] offers nothing else; the reading is held
    /// to that, so whatever reaches the interface is a finite, non-negative
    /// amplitude.
    pub fn take(&self) -> (levels: LevelBits)
        ensures
            is_window_level(levels.peak),
            is_window_level(levels.rms),
    {
        let peak = self.peak.swap(0, Ordering::Relaxed);
        let rms = self.rms.swap(0, Ordering::Relaxed);
        LevelBits { peak: window_level(peak), rms: window_level(rms) }
    }

    /// Clears the levels, for instance when a destination stops.
    pub fn clear(&self) {
        self.peak.store(0, Ordering::Relaxed);
        self.rms.store(0, Ordering::Relaxed);
    }
}

} // verus!
