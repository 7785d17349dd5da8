//! The settings that the engine is started with.

use crate::listmap::ListMap;
use vstd::prelude::*;

verus! {

/// Who runs a log server.
#[derive(Debug, Clone, PartialEq, Eq)]
pub struct JustlogsInstance {
    pub maintainer: String,
    pub alternate: Option<String>,
}

/// Where usage events are sent, and under which identity.
#[derive(Debug, Clone, PartialEq, Eq)]
pub struct UmamiStats {
    pub token: String,
    pub id: String,
    pub url: String,
}

/// The settings of one process. They are made once, at start, and only read
/// afterwards. The log servers are keyed by host name.
#[derive(Debug, Clone)]
pub struct Config {
    pub port: u16,
    pub justlogs_instances: ListMap<JustlogsInstance>,
    pub recentmessages_instances: ListMap<JustlogsInstance>,
    pub umami_stats: Option<UmamiStats>,
    pub alternative_ivr_url: Option<String>,
}

impl Config {
    /// No host name is entered twice in either list of servers.
    pub open spec fn wf(&self) -> bool {
        &&& self.justlogs_instances.wf()
        &&& self.recentmessages_instances.wf()
    }
}

/// What to do about the settings, given which files are there.
#[derive(Debug, Clone, Copy, PartialEq, Eq, Structural)]
pub enum ConfigSource {
    /// The settings file is there: read it.
    SettingsFile,
    /// Only the example is there: refuse to start.
    ExampleOnly,
    /// Neither is known to be there and usable: nothing can be loaded.
    Nothing,
}

/// Decides where the settings come from. Each argument says whether a file is
/// there, or is `None` when that could not be found out. The settings file
/// wins whenever it is there; the example alone is never loaded.
pub fn get_config(example_exists: Option<bool>, config_exists: Option<bool>) -> (source:
    ConfigSource)
    ensures
        source == if config_exists == Some(true) {
            ConfigSource::SettingsFile
        } else if example_exists == Some(true) && config_exists == Some(false) {
            ConfigSource::ExampleOnly
        } else {
            ConfigSource::Nothing
        },
{
    match (example_exists, config_exists) {
        (_, Some(true)) => ConfigSource::SettingsFile,
        (Some(true), Some(false)) => ConfigSource::ExampleOnly,
        _ => ConfigSource::Nothing,
    }
}

} // verus!
