use std::path::PathBuf;

use audiomirror::device::HostPlatform;
use audiomirror::ipc::Platform;
use audiomirror::model::{LatencyProfile, MirrorConfig};
use audiomirror::settings::{coalesce, Preferences, SaveEvent, Settings, Store, FILE_NAME, FORMAT_VERSION};
use audiomirror::source::MAX_TARGETS;

#[test]
fn nothing_readable_yields_current_defaults() {
    let settings: Settings<f32> = Settings::loaded(None);
    assert_eq!(settings.version, FORMAT_VERSION);
    assert!(!settings.mirror.enabled);
    assert!(settings.mirror.targets.is_empty());
    assert!(settings.preferences.close_to_tray);
    assert!(!settings.preferences.start_minimized);
    assert!(!settings.preferences.autostart);
    assert_eq!(settings.mirror.latency, LatencyProfile::Balanced);
}

#[test]
fn what_was_read_is_kept_with_the_current_version() {
    let mut mirror: MirrorConfig<f32> = MirrorConfig::default();
    mirror.enabled = true;
    mirror.latency = LatencyProfile::Tight;
    let read = Settings {
        version: 9,
        mirror,
        preferences: Preferences { start_minimized: true, close_to_tray: false, autostart: true },
    };
    let settings = Settings::loaded(Some(read));
    assert_eq!(settings.version, FORMAT_VERSION);
    assert!(settings.mirror.enabled);
    assert_eq!(settings.mirror.latency, LatencyProfile::Tight);
    assert!(settings.preferences.start_minimized);
    assert!(settings.preferences.autostart);
}

#[test]
fn written_settings_carry_the_current_version() {
    let settings: Settings<f32> = Settings::default();
    assert_eq!(settings.version, 0);
    let stamped = settings.stamped();
    assert_eq!(stamped.version, FORMAT_VERSION);
    assert!(stamped.preferences.close_to_tray);
}

#[test]
fn the_store_lives_beside_the_binary_when_portable() {
    let user = PathBuf::from("user-dir");
    let beside = PathBuf::from("exe-dir");
    let portable = Store::locate(user.clone(), Some(beside.clone()));
    assert!(portable.is_portable());
    assert_eq!(portable.path(), beside.join(FILE_NAME));
    assert_eq!(portable.directory(), &beside);
    assert_eq!(portable.file_name(), "AudioMirror.config.json");

    let installed = Store::locate(user.clone(), None);
    assert!(!installed.is_portable());
    assert_eq!(installed.path(), user.join(FILE_NAME));
    assert_eq!(installed.directory(), &user);

    let explicit = Store::at(PathBuf::from("elsewhere"), true);
    assert!(explicit.is_portable());
    assert_eq!(explicit.path(), PathBuf::from("elsewhere").join(FILE_NAME));
}

#[test]
fn the_platform_description_follows_the_host() {
    let windows = Platform::describe("windows", HostPlatform::Windows, false, "a".to_string());
    assert_eq!(windows.os, "windows");
    assert!(windows.loopback_available);
    assert!(!windows.portable);
    assert_eq!(windows.settings_path, "a");
    assert_eq!(windows.max_targets, MAX_TARGETS);

    let linux = Platform::describe("linux", HostPlatform::Other, true, "b".to_string());
    assert!(!linux.loopback_available);
    assert!(linux.portable);
}

#[test]
fn a_burst_of_changes_is_written_once() {
    let step = coalesce(None, SaveEvent::Arrived(1));
    assert_eq!((step.pending, step.write, step.stop), (Some(1), None, false));
    let step = coalesce(step.pending, SaveEvent::Arrived(2));
    assert_eq!((step.pending, step.write, step.stop), (Some(2), None, false));
    let step = coalesce(step.pending, SaveEvent::Quiet);
    assert_eq!((step.pending, step.write, step.stop), (None, Some(2), false));
    let step = coalesce(Some(3), SaveEvent::Closed);
    assert_eq!((step.pending, step.write, step.stop), (None, Some(3), true));
    let step = coalesce::<u32>(None, SaveEvent::Closed);
    assert_eq!((step.pending, step.write, step.stop), (None, None, true));
}
