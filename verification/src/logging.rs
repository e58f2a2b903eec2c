//! Configuration of the logging system.  The subscriber itself is wired
//! up outside the library; only the configuration values live here.

use vstd::prelude::*;

verus! {

/// Configuration for the logging system.
pub struct LogConfig {
    /// Directory where log files are stored; empty means the platform
    /// default, resolved by the caller
    pub log_dir: String,
    /// Prefix for log file names
    pub file_prefix: String,
    /// Maximum number of log files to keep (rotation)
    pub max_files: usize,
    /// Whether to write logs to file
    pub log_to_file: bool,
    /// Log level filter string
    pub log_level: String,
}

impl core::default::Default for LogConfig {
    /// Rotating file logging, five files kept, info level.
    fn default() -> (r: Self)
        ensures
            r.log_dir@ == Seq::<char>::empty(),
            r.file_prefix@ == "cloudreve-sync"@,
            r.max_files == 5,
            r.log_to_file == true,
            r.log_level@ == "info"@,
    {
        LogConfig {
            log_dir: String::new(),
            file_prefix: "cloudreve-sync".to_owned(),
            max_files: 5,
            log_to_file: true,
            log_level: "info".to_owned(),
        }
    }
}

} // verus!
