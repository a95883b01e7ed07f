//! Hardware sample formats.
//!
//! The engine only ever reasons in normalised samples. Each end converts once,
//! at the hardware boundary, which keeps the variety of formats out of the rest
//! of the audio path; which formats can be converted at all is decided here.

use vstd::prelude::*;

verus! {

/// Sample format of a hardware stream, as the audio host reports it.
#[derive(Clone, Copy, PartialEq, Eq, Debug, Structural)]
pub enum SampleFormat {
    I8,
    I16,
    I24,
    I32,
    I64,
    U8,
    U16,
    U24,
    U32,
    U64,
    F32,
    F64,
    DsdU8,
    DsdU16,
    DsdU32,
}

/// Direct Stream Digital formats, which carry a pulse density rather than
/// amplitudes.
pub open spec fn is_dsd(format: SampleFormat) -> bool {
    format == SampleFormat::DsdU8 || format == SampleFormat::DsdU16 || format == SampleFormat::DsdU32
}

/// True when the format carries linear pulse-code modulation.
///
/// DSD formats encode a pulse density rather than amplitudes, so no direct
/// conversion to float exists. Devices offering nothing else are filtered out
/// during enumeration rather than rendered incorrectly.
pub fn is_linear_pcm(format: SampleFormat) -> (linear: bool)
    ensures
        linear == !is_dsd(format),
{
    match format {
        SampleFormat::DsdU8 | SampleFormat::DsdU16 | SampleFormat::DsdU32 => false,
        _ => true,
    }
}

} // verus!
