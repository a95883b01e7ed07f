use audiomirror::model::{
    default_true, fault_code, fault_is_fatal, fault_message, HostErrorKind, LatencyProfile, MirrorConfig,
    TargetConfig, TargetTelemetry, FAULT_BACKEND, FAULT_BUSY, FAULT_DENIED, FAULT_DISCONNECTED,
    FAULT_INVALIDATED, FAULT_NONE, FAULT_XRUN,
};
use std::sync::atomic::Ordering;

#[test]
fn profiles_are_ordered() {
    assert!(LatencyProfile::Tight.milliseconds(0) < LatencyProfile::Balanced.milliseconds(0));
    assert!(LatencyProfile::Balanced.milliseconds(0) < LatencyProfile::Safe.milliseconds(0));
}

#[test]
fn the_custom_setting_stays_bounded() {
    assert_eq!(LatencyProfile::Custom.milliseconds(0), LatencyProfile::MIN_CUSTOM_MS);
    assert_eq!(LatencyProfile::Custom.milliseconds(100_000), LatencyProfile::MAX_CUSTOM_MS);
    assert_eq!(LatencyProfile::Custom.milliseconds(30), 30);
}

#[test]
fn named_profiles_ignore_the_custom_value() {
    assert_eq!(LatencyProfile::Safe.milliseconds(200), 45);
    assert_eq!(LatencyProfile::Balanced.milliseconds(200), 18);
    assert_eq!(LatencyProfile::Tight.milliseconds(200), 7);
    assert_eq!(LatencyProfile::default(), LatencyProfile::Balanced);
}

#[test]
fn a_default_configuration_is_off_and_balanced() {
    let config = MirrorConfig::<f32>::default();
    assert!(!config.enabled);
    assert!(config.source.is_none());
    assert!(config.targets.is_empty());
    assert_eq!(config.latency, LatencyProfile::Balanced);
    assert_eq!(config.buffer_ms(), 18);
    assert!(default_true());
}

#[test]
fn targets_are_found_by_identifier() {
    let mut config = MirrorConfig::<f32>::default();
    config.targets.push(TargetConfig { id: "a".into(), name: "First".into(), enabled: true, gain_db: 0.0, muted: false });
    config.targets.push(TargetConfig { id: "a".into(), name: "Twin".into(), enabled: true, gain_db: 0.0, muted: false });
    assert_eq!(config.target("a").map(|target| target.name.as_str()), Some("First"));
    assert!(config.target("b").is_none());
    config.latency = LatencyProfile::Custom;
    config.latency_ms = 1;
    assert_eq!(config.buffer_ms(), 3);
}

#[test]
fn fault_codes_read_as_messages() {
    assert_eq!(fault_message(FAULT_NONE), None);
    assert_eq!(fault_message(FAULT_DISCONNECTED), Some("device disconnected"));
    assert_eq!(fault_message(FAULT_INVALIDATED), Some("stream invalidated by the system"));
    assert_eq!(fault_message(FAULT_BUSY), Some("device held by another application"));
    assert_eq!(fault_message(FAULT_DENIED), Some("access denied by the system"));
    assert_eq!(fault_message(FAULT_XRUN), Some("transient stream interruption"));
    assert_eq!(fault_message(FAULT_BACKEND), Some("audio host error"));
    assert_eq!(fault_message(99), Some("audio host error"));
}

#[test]
fn only_real_failures_are_fatal() {
    assert!(!fault_is_fatal(FAULT_NONE));
    assert!(!fault_is_fatal(FAULT_XRUN));
    assert!(fault_is_fatal(FAULT_DISCONNECTED));
    assert!(fault_is_fatal(FAULT_BACKEND));
    assert!(fault_is_fatal(42));
}

#[test]
fn host_errors_are_classified() {
    assert_eq!(fault_code(HostErrorKind::DeviceNotAvailable), FAULT_DISCONNECTED);
    assert_eq!(fault_code(HostErrorKind::StreamInvalidated), FAULT_INVALIDATED);
    assert_eq!(fault_code(HostErrorKind::DeviceChanged), FAULT_INVALIDATED);
    assert_eq!(fault_code(HostErrorKind::DeviceBusy), FAULT_BUSY);
    assert_eq!(fault_code(HostErrorKind::PermissionDenied), FAULT_DENIED);
    assert_eq!(fault_code(HostErrorKind::Xrun), FAULT_XRUN);
    assert_eq!(fault_code(HostErrorKind::Other), FAULT_BACKEND);
    assert_eq!(fault_code(HostErrorKind::UnsupportedConfig), FAULT_BACKEND);
}

#[test]
fn telemetry_resets_to_quiet() {
    let telemetry = TargetTelemetry::new();
    telemetry.add_overruns(5);
    telemetry.add_underrun();
    telemetry.live.store(true, Ordering::Relaxed);
    telemetry.fault.store(FAULT_BUSY, Ordering::Relaxed);
    telemetry.meter.raise(0.5f32.to_bits(), 0.25f32.to_bits());
    assert_eq!(telemetry.overruns.load(Ordering::Relaxed), 5);
    assert_eq!(telemetry.underruns.load(Ordering::Relaxed), 1);

    telemetry.reset();
    assert_eq!(telemetry.overruns.load(Ordering::Relaxed), 0);
    assert_eq!(telemetry.underruns.load(Ordering::Relaxed), 0);
    assert!(!telemetry.live.load(Ordering::Relaxed));
    assert_eq!(telemetry.fault.load(Ordering::Relaxed), FAULT_NONE);
    assert_eq!(telemetry.meter.take().peak, 0);
}
