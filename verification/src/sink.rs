//! Settings of a destination that can change while its stream runs.
//!
//! The gain reaches the render callback through an atomic holding the bit
//! pattern of a linear gain, so a slider move never disturbs the stream.

use vstd::prelude::*;
use std::sync::atomic::{AtomicU32, Ordering};

verus! {

/// Bit pattern of a linear gain of 8, the loudest a destination may be driven.
pub const MAX_GAIN_BITS: u32 = 0x4100_0000;

/// Bit pattern of positive infinity.
pub const POSITIVE_INFINITY_BITS: u32 = 0x7F80_0000;

/// Bit pattern of negative zero.
pub const NEGATIVE_ZERO_BITS: u32 = 0x8000_0000;

/// The gain actually applied for a requested gain, both as float bit
/// patterns: a finite value is bounded to `[0, 8]`, anything else is silence.
///
/// Reading the bit patterns: `[0, MAX_GAIN_BITS)` are the finite values from
/// zero up to eight, kept; up to infinity they are larger finite values,
/// bounded to eight; the remaining positive patterns are infinity and
/// not-a-number, silenced. Negative zero compares equal to zero and is kept;
/// every other pattern with the sign bit set is a negative value, bounded to
/// zero, or negative infinity or not-a-number, silenced.
pub open spec fn sane_gain(bits: u32) -> u32 {
    if bits < MAX_GAIN_BITS {
        bits
    } else if bits < POSITIVE_INFINITY_BITS {
        MAX_GAIN_BITS
    } else if bits == NEGATIVE_ZERO_BITS {
        NEGATIVE_ZERO_BITS
    } else {
        0
    }
}

/// Settings that can change while the stream runs.
#[derive(Debug)]
pub struct SinkControl {
    /// Target linear gain, carried as its bit pattern.
    gain: AtomicU32,
}

impl SinkControl {
    pub fn new(gain: u32) -> Self {
        SinkControl { gain: AtomicU32::new(gain) }
    }

    /// Sets the target gain, given as the bit pattern of a linear gain. A
    /// finite value is bounded to `[0, 8]`; anything else silences the
    /// destination. Returns the bit pattern stored.
    pub fn set_gain(&self, linear: u32) -> (stored: u32)
        ensures
            stored == sane_gain(linear),
            linear <= 0x4100_0000u32 ==> stored == linear,
            0x4100_0000u32 < linear < 0x7F80_0000u32 ==> stored == 0x4100_0000u32,
            linear == 0x8000_0000u32 ==> stored == linear,
            linear >= 0x7F80_0000u32 && linear != 0x8000_0000u32 ==> stored == 0,
    {
        let sane = if linear < MAX_GAIN_BITS {
            linear
        } else if linear < POSITIVE_INFINITY_BITS {
            MAX_GAIN_BITS
        } else if linear == NEGATIVE_ZERO_BITS {
            NEGATIVE_ZERO_BITS
        } else {
            0
        };
        self.gain.store(sane, Ordering::Relaxed);
        sane
    }

    /// The current target gain, as a bit pattern.
    pub fn gain(&self) -> u32 {
        self.gain.load(Ordering::Relaxed)
    }
}

/// Whatever is requested, the gain applied is a finite value between zero
/// and eight.
pub proof fn lemma_gain_is_bounded(bits: u32)
    ensures
        sane_gain(bits) <= MAX_GAIN_BITS || sane_gain(bits) == NEGATIVE_ZERO_BITS,
        sane_gain(sane_gain(bits)) == sane_gain(bits),
{
}

/// A finite gain from zero up to eight (bit patterns up to that of 8.0) is
/// applied exactly as asked; a larger finite gain is applied as eight; zero
/// of either sign is kept; anything negative, infinite or not a number is
/// silence.
pub proof fn lemma_gain_kept_within_range(bits: u32)
    ensures
        bits <= 0x4100_0000u32 ==> sane_gain(bits) == bits,
        0x4100_0000u32 < bits < 0x7F80_0000u32 ==> sane_gain(bits) == 0x4100_0000u32,
        bits == 0x8000_0000u32 ==> sane_gain(bits) == bits,
        bits >= 0x7F80_0000u32 && bits != 0x8000_0000u32 ==> sane_gain(bits) == 0,
{
}

} // verus!
