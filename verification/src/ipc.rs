//! What the interface is told about the platform it runs on.

use vstd::prelude::*;
use crate::device::{supports_loopback, HostPlatform};
use crate::source::MAX_TARGETS;

verus! {

#[derive(Clone, Debug)]
pub struct Platform {
    pub os: &'static str,
    /// True when an output can be captured without an extra driver.
    pub loopback_available: bool,
    pub portable: bool,
    pub settings_path: String,
    pub max_targets: usize,
}

impl Platform {
    /// Describes the platform: its name, what it can capture, where the
    /// settings live, and how many destinations can be fed at once.
    pub fn describe(os: &'static str, host: HostPlatform, portable: bool, settings_path: String) -> (platform: Self)
        ensures
            platform.os == os,
            platform.loopback_available == (host == HostPlatform::Windows || host == HostPlatform::MacOs),
            platform.portable == portable,
            platform.settings_path == settings_path,
            platform.max_targets == MAX_TARGETS,
    {
        Platform {
            os,
            loopback_available: supports_loopback(host),
            portable,
            settings_path,
            max_targets: MAX_TARGETS,
        }
    }
}

} // verus!
