//! How the service's own log files are written.
use vstd::prelude::*;
use crate::text::owned;

verus! {

/// Where and how the rolling log files go.
pub struct LoggingConfig {
    pub dir: String,
    pub file_prefix: String,
    pub default_filter: String,
    pub max_files: usize,
}

impl LoggingConfig {
    /// The log files the service writes under the configured settings: named after
    /// the service, in the configured folder, filtered and rotated as configured.
    pub fn from_settings(settings: &crate::config::LoggingConfig) -> (r: LoggingConfig)
        ensures
            r.dir@ == settings.path@,
            r.file_prefix@ == "wiki"@,
            r.default_filter@ == settings.filter@,
            r.max_files == settings.max_files,
    {
        LoggingConfig {
            dir: settings.path.clone(),
            file_prefix: owned("wiki"),
            default_filter: settings.filter.clone(),
            max_files: settings.max_files as usize,
        }
    }
}

} // verus!
