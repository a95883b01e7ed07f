//! Settings, portable or per-user.
//!
//! A marker file next to the executable switches the application to portable
//! mode, where settings live beside the binary and the machine is left
//! untouched. Without it, settings go to the usual per-user location.
//!
//! Reading and writing the file is the caller's business; where it lives and
//! what a missing or damaged file amounts to is decided here.

use vstd::prelude::*;
use std::path::PathBuf;
use crate::model::MirrorConfig;

verus! {

#[verifier::external_type_specification]
#[verifier::external_body]
pub struct ExPathBuf(PathBuf);

/// Presence of this file next to the executable selects portable mode.
pub const PORTABLE_MARKER: &'static str = "AudioMirror.portable";

pub const FILE_NAME: &'static str = "AudioMirror.config.json";

/// Current settings format. Bumped only when a migration becomes necessary.
pub const FORMAT_VERSION: u32 = 1;

/// `Path::join`: the path of `name` inside `directory`. What the platform makes
/// of the separator is not stated.
#[verifier::external_body]
fn join(directory: &PathBuf, name: &str) -> PathBuf {
    directory.join(name)
}

#[derive(Clone, Debug)]
pub struct Preferences {
    /// Start with the window hidden, leaving only the tray icon.
    pub start_minimized: bool,
    /// Closing the window hides it instead of quitting.
    pub close_to_tray: bool,
    /// Launch with the session.
    pub autostart: bool,
}

impl Default for Preferences {
    fn default() -> (preferences: Self)
        ensures
            !preferences.start_minimized,
            preferences.close_to_tray,
            !preferences.autostart,
    {
        Preferences { start_minimized: false, close_to_tray: true, autostart: false }
    }
}

#[derive(Clone, Debug)]
pub struct Settings<G> {
    pub version: u32,
    pub mirror: MirrorConfig<G>,
    pub preferences: Preferences,
}

impl<G> Default for Settings<G> {
    fn default() -> (settings: Self)
        ensures
            settings.version == 0,
            !settings.mirror.enabled,
            settings.mirror.source is None,
            settings.mirror.targets@.len() == 0,
            !settings.preferences.start_minimized,
            settings.preferences.close_to_tray,
            !settings.preferences.autostart,
    {
        Settings { version: 0, mirror: MirrorConfig::default(), preferences: Preferences::default() }
    }
}

impl<G> Settings<G> {
    /// The settings a read produced. An unreadable or damaged file (`None`)
    /// yields defaults rather than an error: the application must still start,
    /// and the file gets rewritten on the next change anyway. Either way the
    /// result carries the current format version.
    pub fn loaded(parsed: Option<Settings<G>>) -> (settings: Settings<G>)
        ensures
            settings.version == FORMAT_VERSION,
            match parsed {
                Some(read) => settings.mirror == read.mirror && settings.preferences == read.preferences,
                None => {
                    &&& !settings.mirror.enabled
                    &&& settings.mirror.source is None
                    &&& settings.mirror.targets@.len() == 0
                    &&& !settings.preferences.start_minimized
                    &&& settings.preferences.close_to_tray
                    &&& !settings.preferences.autostart
                },
            },
    {
        let mut settings = match parsed {
            Some(read) => read,
            None => Settings::default(),
        };
        settings.version = FORMAT_VERSION;
        settings
    }

    /// The settings as they are written: stamped with the current format
    /// version, everything else as given.
    pub fn stamped(self) -> (settings: Settings<G>)
        ensures
            settings.version == FORMAT_VERSION,
            settings.mirror == self.mirror,
            settings.preferences == self.preferences,
    {
        let mut settings = self;
        settings.version = FORMAT_VERSION;
        settings
    }
}

/// Where settings are read from and written to: the settings file in a
/// directory.
pub struct Store {
    directory: PathBuf,
    portable: bool,
}

impl Store {
    pub closed spec fn spec_portable(&self) -> bool {
        self.portable
    }

    /// The directory the settings file lives in.
    pub closed spec fn spec_directory(&self) -> PathBuf {
        self.directory
    }

    /// Chooses the location: next to the executable in portable mode, in the
    /// per-user directory otherwise. `portable_directory` is the executable's
    /// directory when the portable marker was found in it.
    pub fn locate(user_directory: PathBuf, portable_directory: Option<PathBuf>) -> (store: Self)
        ensures
            store.spec_portable() == (portable_directory is Some),
            store.spec_directory() == match portable_directory {
                Some(directory) => directory,
                None => user_directory,
            },
    {
        match portable_directory {
            Some(directory) => Store { directory, portable: true },
            None => Store { directory: user_directory, portable: false },
        }
    }

    /// A store whose settings file lives in `directory`.
    pub fn at(directory: PathBuf, portable: bool) -> (store: Self)
        ensures
            store.spec_portable() == portable,
            store.spec_directory() == directory,
    {
        Store { directory, portable }
    }

    /// The directory the settings file lives in.
    pub fn directory(&self) -> (directory: &PathBuf)
        ensures
            *directory == self.spec_directory(),
    {
        &self.directory
    }

    /// Name of the settings file within the store's directory.
    pub fn file_name(&self) -> (name: &'static str)
        ensures
            name@ == FILE_NAME@,
    {
        FILE_NAME
    }

    /// The settings file: [`Store::file_name`] in [`Store::directory`]. The
    /// joining itself is the platform's (`Path::join`), of which nothing is
    /// stated here.
    pub fn path(&self) -> PathBuf {
        join(self.directory(), self.file_name())
    }

    pub fn is_portable(&self) -> (portable: bool)
        ensures
            portable == self.spec_portable(),
    {
        self.portable
    }
}

/// What reached the settings writer while it waited.
pub enum SaveEvent<S> {
    /// A newer value to persist.
    Arrived(S),
    /// No further change came for a while.
    Quiet,
    /// Nothing more will ever come.
    Closed,
}

/// What the settings writer does next.
pub struct SaveStep<S> {
    /// The value waiting to be written.
    pub pending: Option<S>,
    /// The value to write now.
    pub write: Option<S>,
    /// Whether the writer is done.
    pub stop: bool,
}

/// Folds a burst of changes into a single write: the engine reports every
/// change, including the small ones, and none of them is worth a disk write
/// of its own. A newer value replaces what is pending and nothing is written
/// yet; once changes stop arriving for a while, or nothing more can come,
/// what is pending is written and cleared, and in the latter case the writer
/// stops.
pub fn coalesce<S>(pending: Option<S>, event: SaveEvent<S>) -> (step: SaveStep<S>)
    ensures
        match event {
            SaveEvent::Arrived(value) => step.pending == Some(value) && step.write is None && !step.stop,
            SaveEvent::Quiet => step.pending is None && step.write == pending && !step.stop,
            SaveEvent::Closed => step.pending is None && step.write == pending && step.stop,
        },
{
    match event {
        SaveEvent::Arrived(value) => SaveStep { pending: Some(value), write: None, stop: false },
        SaveEvent::Quiet => SaveStep { pending: None, write: pending, stop: false },
        SaveEvent::Closed => SaveStep { pending: None, write: pending, stop: true },
    }
}

} // verus!
