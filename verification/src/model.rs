//! Types shared between the engine, persistence and the interface.
//!
//! Two families live here: what the user asked for (`MirrorConfig`, the object
//! written to disk) and what the hardware is actually doing (the telemetry the
//! callbacks publish). Keeping them apart means a transient failure never
//! erases an intent, and a disconnected destination can still be displayed
//! instead of being forgotten.
//!
//! A destination's gain is a decibel value in the audio path's own number
//! format; the configuration is generic over it and never computes with it.

use vstd::prelude::*;
use std::sync::atomic::{AtomicBool, AtomicI32, AtomicU32, AtomicU64, Ordering};
use crate::meter::LevelMeter;

verus! {

/// Trade-off between latency and tolerance to hiccups.
#[derive(Clone, Copy, PartialEq, Eq, Debug, Structural)]
pub enum LatencyProfile {
    /// Comfortable: absorbs a loaded machine or a wireless device.
    Safe,
    Balanced,
    /// As short as it goes: expects a responsive machine and wired devices.
    Tight,
    Custom,
}

pub const MIN_CUSTOM_MS: u32 = 3;
pub const MAX_CUSTOM_MS: u32 = 250;

/// Buffer target, in milliseconds, that a profile stands for.
pub open spec fn profile_ms(profile: LatencyProfile, custom: u32) -> u32 {
    match profile {
        LatencyProfile::Safe => 45,
        LatencyProfile::Balanced => 18,
        LatencyProfile::Tight => 7,
        LatencyProfile::Custom => if custom < MIN_CUSTOM_MS {
            MIN_CUSTOM_MS
        } else if custom > MAX_CUSTOM_MS {
            MAX_CUSTOM_MS
        } else {
            custom
        },
    }
}

impl Default for LatencyProfile {
    fn default() -> (profile: Self)
        ensures
            profile == LatencyProfile::Balanced,
    {
        LatencyProfile::Balanced
    }
}

impl LatencyProfile {
    pub const MIN_CUSTOM_MS: u32 = 3;
    pub const MAX_CUSTOM_MS: u32 = 250;

    /// Buffer target in milliseconds.
    pub fn milliseconds(self, custom: u32) -> (ms: u32)
        ensures
            ms == profile_ms(self, custom),
    {
        match self {
            LatencyProfile::Safe => 45,
            LatencyProfile::Balanced => 18,
            LatencyProfile::Tight => 7,
            LatencyProfile::Custom => if custom < MIN_CUSTOM_MS {
                MIN_CUSTOM_MS
            } else if custom > MAX_CUSTOM_MS {
                MAX_CUSTOM_MS
            } else {
                custom
            },
        }
    }
}

/// The named profiles are ordered from shortest to longest, and a custom
/// setting always lands between the two bounds, whatever was asked for.
pub proof fn lemma_profiles_ordered(custom: u32)
    ensures
        profile_ms(LatencyProfile::Tight, custom) < profile_ms(LatencyProfile::Balanced, custom),
        profile_ms(LatencyProfile::Balanced, custom) < profile_ms(LatencyProfile::Safe, custom),
        MIN_CUSTOM_MS <= profile_ms(LatencyProfile::Custom, custom) <= MAX_CUSTOM_MS,
        MIN_CUSTOM_MS <= custom <= MAX_CUSTOM_MS ==> profile_ms(LatencyProfile::Custom, custom) == custom,
{
}

/// Device chosen as the mirror's source.
#[derive(Clone, Debug, PartialEq, Eq)]
pub struct SourceConfig {
    /// Identifier issued by the audio host, stable across sessions.
    pub id: String,
    /// Last known name, so the entry stays readable while the device is away.
    pub name: String,
}

/// A destination is enabled unless the stored settings say otherwise.
pub fn default_true() -> (enabled: bool)
    ensures
        enabled,
{
    true
}

/// Destination fed by the mirror.
#[derive(Clone, Debug)]
pub struct TargetConfig<G> {
    pub id: String,
    pub name: String,
    pub enabled: bool,
    pub gain_db: G,
    pub muted: bool,
}

/// What the user asked for. This is the object that gets persisted.
#[derive(Clone, Debug)]
pub struct MirrorConfig<G> {
    pub enabled: bool,
    pub source: Option<SourceConfig>,
    pub targets: Vec<TargetConfig<G>>,
    pub latency: LatencyProfile,
    pub latency_ms: u32,
}

impl<G> Default for MirrorConfig<G> {
    fn default() -> (config: Self)
        ensures
            !config.enabled,
            config.source is None,
            config.targets@.len() == 0,
            config.latency == LatencyProfile::Balanced,
            config.latency_ms == 0,
    {
        MirrorConfig {
            enabled: false,
            source: None,
            targets: Vec::new(),
            latency: LatencyProfile::Balanced,
            latency_ms: 0,
        }
    }
}

impl<G> MirrorConfig<G> {
    /// Effective buffer target, in milliseconds.
    pub fn buffer_ms(&self) -> (ms: u32)
        ensures
            ms == profile_ms(self.latency, self.latency_ms),
    {
        self.latency.milliseconds(self.latency_ms)
    }

    /// The first destination carrying this identifier, if any.
    pub fn target(&self, id: &str) -> (found: Option<&TargetConfig<G>>)
        ensures
            match found {
                Some(target) => exists|i: int|
                    0 <= i < self.targets@.len() && self.targets@[i] == *target && target.id@ == id@
                        && (forall|j: int| 0 <= j < i ==> #[trigger] self.targets@[j].id@ != id@),
                None => forall|i: int| 0 <= i < self.targets@.len() ==> #[trigger] self.targets@[i].id@ != id@,
            },
    {
        let wanted = id.to_owned();
        let mut index: usize = 0;
        while index < self.targets.len()
            invariant
                wanted@ == id@,
                0 <= index <= self.targets@.len(),
                forall|j: int| 0 <= j < index ==> #[trigger] self.targets@[j].id@ != id@,
            decreases self.targets@.len() - index,
        {
            if self.targets[index].id == wanted {
                return Some(&self.targets[index]);
            }
            index = index + 1;
        }
        None
    }
}

/// Actual state of one link in the mirror.
#[derive(Clone, Copy, PartialEq, Eq, Debug, Structural)]
pub enum LinkState {
    /// Set aside by the user.
    Idle,
    /// The device no longer appears in the system enumeration.
    Missing,
    /// Opening, or waiting before another attempt.
    Connecting,
    /// Stream open, buffer still filling.
    Priming,
    /// Running.
    Live,
    /// The host kept refusing; the reason is carried alongside.
    Failed,
}

/// Counters shared between a destination's audio callbacks and the engine.
///
/// Every write comes from a real-time thread, so each field is atomic and used
/// with relaxed ordering; none of these values publishes memory.
#[derive(Debug, Default)]
pub struct TargetTelemetry {
    /// Frames turned away for lack of room: the destination consumes too slowly.
    pub overruns: AtomicU64,
    /// Blocks rendered short: the source failed to keep up.
    pub underruns: AtomicU64,
    /// Mean ring occupancy, in frames.
    pub buffered_frames: AtomicU32,
    /// Size of the last block the host asked for, in frames.
    pub render_frames: AtomicU32,
    /// Clock correction currently applied, in parts per million.
    pub correction_ppm: AtomicI32,
    /// True once the buffer is primed and audio is flowing.
    pub live: AtomicBool,
    /// Error code reported by the host, see [`fault_message`].
    pub fault: AtomicU32,
    pub meter: LevelMeter,
}

impl TargetTelemetry {
    pub fn new() -> Self {
        TargetTelemetry {
            overruns: AtomicU64::new(0),
            underruns: AtomicU64::new(0),
            buffered_frames: AtomicU32::new(0),
            render_frames: AtomicU32::new(0),
            correction_ppm: AtomicI32::new(0),
            live: AtomicBool::new(false),
            fault: AtomicU32::new(FAULT_NONE),
            meter: LevelMeter::new(),
        }
    }

    /// Counts frames a full ring turned away.
    pub fn add_overruns(&self, frames: u64) {
        let _ = self.overruns.fetch_add(frames, Ordering::Relaxed);
    }

    /// Counts a block rendered short.
    pub fn add_underrun(&self) {
        let _ = self.underruns.fetch_add(1, Ordering::Relaxed);
    }

    pub fn reset(&self) {
        self.overruns.store(0, Ordering::Relaxed);
        self.underruns.store(0, Ordering::Relaxed);
        self.buffered_frames.store(0, Ordering::Relaxed);
        self.render_frames.store(0, Ordering::Relaxed);
        self.correction_ppm.store(0, Ordering::Relaxed);
        self.live.store(false, Ordering::Relaxed);
        self.fault.store(FAULT_NONE, Ordering::Relaxed);
        self.meter.clear();
    }
}

/// Counters shared between the capture callback and the engine.
#[derive(Debug, Default)]
pub struct SourceTelemetry {
    /// Size of the last block delivered by the host, in frames.
    pub capture_frames: AtomicU32,
    pub fault: AtomicU32,
    pub meter: LevelMeter,
}

impl SourceTelemetry {
    pub fn new() -> Self {
        SourceTelemetry {
            capture_frames: AtomicU32::new(0),
            fault: AtomicU32::new(FAULT_NONE),
            meter: LevelMeter::new(),
        }
    }
}

pub const FAULT_NONE: u32 = 0;
pub const FAULT_DISCONNECTED: u32 = 1;
pub const FAULT_INVALIDATED: u32 = 2;
pub const FAULT_BUSY: u32 = 3;
pub const FAULT_DENIED: u32 = 4;
pub const FAULT_BACKEND: u32 = 5;
/// A transient gap in the stream. Reported by the host, but with no bearing on
/// the stream's validity: the buffer refills on its own.
pub const FAULT_XRUN: u32 = 6;

/// The message a fault code is displayed with.
pub open spec fn fault_text(code: u32) -> Option<Seq<char>> {
    if code == FAULT_NONE {
        None
    } else if code == FAULT_DISCONNECTED {
        Some("device disconnected"@)
    } else if code == FAULT_INVALIDATED {
        Some("stream invalidated by the system"@)
    } else if code == FAULT_BUSY {
        Some("device held by another application"@)
    } else if code == FAULT_DENIED {
        Some("access denied by the system"@)
    } else if code == FAULT_XRUN {
        Some("transient stream interruption"@)
    } else {
        Some("audio host error"@)
    }
}

/// Turns a fault code into a displayable message.
pub fn fault_message(code: u32) -> (message: Option<&'static str>)
    ensures
        match message {
            Some(text) => fault_text(code) == Some(text@),
            None => fault_text(code) is None,
        },
{
    if code == FAULT_NONE {
        None
    } else if code == FAULT_DISCONNECTED {
        Some("device disconnected")
    } else if code == FAULT_INVALIDATED {
        Some("stream invalidated by the system")
    } else if code == FAULT_BUSY {
        Some("device held by another application")
    } else if code == FAULT_DENIED {
        Some("access denied by the system")
    } else if code == FAULT_XRUN {
        Some("transient stream interruption")
    } else {
        Some("audio host error")
    }
}

/// Whether a fault code demands rebuilding the stream.
pub open spec fn is_fatal(code: u32) -> bool {
    code != FAULT_NONE && code != FAULT_XRUN
}

/// True when the fault requires rebuilding the stream.
///
/// Telling the two apart avoids tearing down and reopening a perfectly valid
/// stream on every hiccup of the machine, which would turn a micro-glitch into
/// a real interruption.
pub fn fault_is_fatal(code: u32) -> (fatal: bool)
    ensures
        fatal == is_fatal(code),
{
    !(code == FAULT_NONE || code == FAULT_XRUN)
}

/// General category of a host error, as the audio host reports it.
#[derive(Clone, Copy, PartialEq, Eq, Debug, Structural)]
pub enum HostErrorKind {
    DeviceBusy,
    DeviceChanged,
    DeviceNotAvailable,
    HostUnavailable,
    InvalidInput,
    PermissionDenied,
    RealtimeDenied,
    ResourceExhausted,
    StreamInvalidated,
    UnsupportedConfig,
    UnsupportedOperation,
    Xrun,
    BackendError,
    Other,
}

/// The fault code a host error category is published as.
pub open spec fn code_of(kind: HostErrorKind) -> u32 {
    match kind {
        HostErrorKind::DeviceNotAvailable => FAULT_DISCONNECTED,
        HostErrorKind::StreamInvalidated => FAULT_INVALIDATED,
        HostErrorKind::DeviceChanged => FAULT_INVALIDATED,
        HostErrorKind::DeviceBusy => FAULT_BUSY,
        HostErrorKind::PermissionDenied => FAULT_DENIED,
        HostErrorKind::Xrun => FAULT_XRUN,
        _ => FAULT_BACKEND,
    }
}

/// Classifies a host error so it can cross a real-time callback as a plain
/// integer.
pub fn fault_code(kind: HostErrorKind) -> (code: u32)
    ensures
        code == code_of(kind),
{
    match kind {
        HostErrorKind::DeviceNotAvailable => FAULT_DISCONNECTED,
        HostErrorKind::StreamInvalidated => FAULT_INVALIDATED,
        HostErrorKind::DeviceChanged => FAULT_INVALIDATED,
        HostErrorKind::DeviceBusy => FAULT_BUSY,
        HostErrorKind::PermissionDenied => FAULT_DENIED,
        HostErrorKind::Xrun => FAULT_XRUN,
        _ => FAULT_BACKEND,
    }
}

/// A reported host error is never "no fault", and only a transient gap
/// leaves the stream standing.
pub proof fn lemma_reported_errors_are_faults(kind: HostErrorKind)
    ensures
        code_of(kind) != FAULT_NONE,
        is_fatal(code_of(kind)) == (kind != HostErrorKind::Xrun),
        fault_text(code_of(kind)) is Some,
{
}

} // verus!
