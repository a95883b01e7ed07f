use audiomirror::command::{handle, remember_source_name, remember_target_name, Command, Effect};
use audiomirror::convert::SampleFormat;
use audiomirror::device::{catalog, DeviceCatalog, DeviceProbe, HostPlatform, InterfaceKind, StreamFormat};
use audiomirror::model::{LatencyProfile, MirrorConfig};

fn known_devices() -> DeviceCatalog {
    let format = StreamFormat { sample_format: SampleFormat::F32, sample_rate: 48000, channels: 2 };
    let probes = vec![
        DeviceProbe {
            id: "spk".to_string(),
            name: "Speakers".to_string(),
            interface: InterfaceKind::BuiltIn,
            output: Some(format),
            input: None,
        },
        DeviceProbe {
            id: "mic".to_string(),
            name: "Microphone".to_string(),
            interface: InterfaceKind::Usb,
            output: None,
            input: Some(format),
        },
    ];
    catalog(&probes, &None, &None, HostPlatform::Other)
}

#[test]
fn switching_the_mirror_on_is_persisted() {
    let mut config: MirrorConfig<f32> = MirrorConfig::default();
    let outcome = handle(&mut config, Command::SetEnabled(true), &known_devices(), 0.0);
    assert!(config.enabled);
    assert!(outcome.changed);
    assert_eq!(outcome.effect, Effect::Nothing);
}

#[test]
fn choosing_a_source_records_its_name_and_resets_its_link() {
    let devices = known_devices();
    let mut config: MirrorConfig<f32> = MirrorConfig::default();
    let outcome = handle(&mut config, Command::SetSource(Some("mic".to_string())), &devices, 0.0);
    assert!(outcome.changed);
    assert_eq!(outcome.effect, Effect::ResetSourceLink);
    let source = config.source.clone().unwrap();
    assert_eq!(source.id, "mic");
    assert_eq!(source.name, "Microphone");

    let outcome = handle(&mut config, Command::SetSource(Some("away".to_string())), &devices, 0.0);
    assert_eq!(config.source.clone().unwrap().name, "away");
    assert_eq!(outcome.effect, Effect::ResetSourceLink);

    handle(&mut config, Command::SetSource(None), &devices, 0.0);
    assert!(config.source.is_none());
}

#[test]
fn a_destination_is_added_once_at_unity_gain() {
    let devices = known_devices();
    let mut config: MirrorConfig<f32> = MirrorConfig::default();
    let outcome = handle(&mut config, Command::AddTarget("spk".to_string()), &devices, 0.0);
    assert!(outcome.changed);
    assert_eq!(config.targets.len(), 1);
    assert_eq!(config.targets[0].name, "Speakers");
    assert!(config.targets[0].enabled);
    assert!(!config.targets[0].muted);
    assert_eq!(config.targets[0].gain_db, 0.0);

    let again = handle(&mut config, Command::AddTarget("spk".to_string()), &devices, 0.0);
    assert!(!again.changed);
    assert_eq!(again.effect, Effect::Nothing);
    assert_eq!(config.targets.len(), 1);
}

#[test]
fn removing_a_destination_drops_every_copy() {
    let devices = known_devices();
    let mut config: MirrorConfig<f32> = MirrorConfig::default();
    handle(&mut config, Command::AddTarget("spk".to_string()), &devices, 0.0);
    handle(&mut config, Command::AddTarget("other".to_string()), &devices, 0.0);
    let mut duplicate = config.targets[0].clone();
    duplicate.gain_db = -3.0;
    config.targets.push(duplicate);

    let outcome = handle(&mut config, Command::RemoveTarget("spk".to_string()), &devices, 0.0);
    assert!(outcome.changed);
    assert_eq!(config.targets.len(), 1);
    assert_eq!(config.targets[0].id, "other");

    let outcome = handle(&mut config, Command::RemoveTarget("spk".to_string()), &devices, 0.0);
    assert!(!outcome.changed);
}

#[test]
fn toggling_and_gain_touch_only_the_named_destination() {
    let devices = known_devices();
    let mut config: MirrorConfig<f32> = MirrorConfig::default();
    handle(&mut config, Command::AddTarget("spk".to_string()), &devices, 0.0);
    handle(&mut config, Command::AddTarget("other".to_string()), &devices, 0.0);

    let outcome = handle(
        &mut config,
        Command::SetTargetEnabled { id: "other".to_string(), enabled: false },
        &devices,
        0.0,
    );
    assert!(outcome.changed);
    assert!(config.targets[0].enabled);
    assert!(!config.targets[1].enabled);

    let same = handle(
        &mut config,
        Command::SetTargetEnabled { id: "other".to_string(), enabled: false },
        &devices,
        0.0,
    );
    assert!(!same.changed);

    let outcome = handle(
        &mut config,
        Command::SetTargetGain { id: "spk".to_string(), gain_db: -6.0, muted: true },
        &devices,
        0.0,
    );
    assert!(outcome.changed);
    assert_eq!(outcome.effect, Effect::ApplyGains);
    assert_eq!(config.targets[0].gain_db, -6.0);
    assert!(config.targets[0].muted);
    assert_eq!(config.targets[1].gain_db, 0.0);

    let unknown = handle(
        &mut config,
        Command::SetTargetGain { id: "nobody".to_string(), gain_db: 3.0, muted: false },
        &devices,
        0.0,
    );
    assert!(!unknown.changed);
    assert_eq!(unknown.effect, Effect::Nothing);
}

#[test]
fn a_new_latency_rebuilds_every_destination() {
    let devices = known_devices();
    let mut config: MirrorConfig<f32> = MirrorConfig::default();
    let outcome = handle(
        &mut config,
        Command::SetLatency { profile: LatencyProfile::Custom, custom_ms: 30 },
        &devices,
        0.0,
    );
    assert!(outcome.changed);
    assert_eq!(outcome.effect, Effect::CloseAllTargets);
    assert_eq!(config.buffer_ms(), 30);

    let same = handle(
        &mut config,
        Command::SetLatency { profile: LatencyProfile::Custom, custom_ms: 30 },
        &devices,
        0.0,
    );
    assert!(!same.changed);
    assert_eq!(same.effect, Effect::Nothing);
}

#[test]
fn requests_that_change_nothing_persisted() {
    let devices = known_devices();
    let mut config: MirrorConfig<f32> = MirrorConfig::default();
    let rescan = handle(&mut config, Command::Rescan, &devices, 0.0);
    assert!(!rescan.changed);
    assert_eq!(rescan.effect, Effect::Rescan);
    let watch = handle(&mut config, Command::SetTelemetry(true), &devices, 0.0);
    assert_eq!(watch.effect, Effect::SetTelemetry(true));
    let stop = handle(&mut config, Command::Shutdown, &devices, 0.0);
    assert!(!stop.changed);
    assert_eq!(stop.effect, Effect::Nothing);
    assert!(!config.enabled);
    assert!(config.targets.is_empty());
}

#[test]
fn a_renamed_device_keeps_its_new_name() {
    let devices = known_devices();
    let mut config: MirrorConfig<f32> = MirrorConfig::default();
    assert!(!remember_source_name(&mut config, "Anything".to_string()));

    handle(&mut config, Command::SetSource(Some("mic".to_string())), &devices, 0.0);
    assert!(!remember_source_name(&mut config, "Microphone".to_string()));
    assert!(remember_source_name(&mut config, "Desk microphone".to_string()));
    let source = config.source.clone().unwrap();
    assert_eq!(source.id, "mic");
    assert_eq!(source.name, "Desk microphone");

    handle(&mut config, Command::AddTarget("spk".to_string()), &devices, 0.0);
    handle(&mut config, Command::AddTarget("other".to_string()), &devices, 0.0);
    assert!(!remember_target_name(&mut config, &"spk".to_string(), "Speakers".to_string()));
    assert!(!remember_target_name(&mut config, &"nobody".to_string(), "X".to_string()));
    assert!(remember_target_name(&mut config, &"other".to_string(), "Monitor".to_string()));
    assert_eq!(config.targets[1].name, "Monitor");
    assert_eq!(config.targets[0].name, "Speakers");
}

#[test]
fn removing_what_was_just_added_restores_the_configuration() {
    let devices = known_devices();
    let mut config: MirrorConfig<f32> = MirrorConfig::default();
    handle(&mut config, Command::AddTarget("other".to_string()), &devices, 0.0);
    let before: Vec<String> = config.targets.iter().map(|t| t.id.clone()).collect();

    let added = handle(&mut config, Command::AddTarget("spk".to_string()), &devices, 0.0);
    let removed = handle(&mut config, Command::RemoveTarget("spk".to_string()), &devices, 0.0);
    assert!(added.changed && removed.changed);
    let after: Vec<String> = config.targets.iter().map(|t| t.id.clone()).collect();
    assert_eq!(after, before);
}
