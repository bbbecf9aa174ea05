//! Process-wide configuration: where the global log goes, at what level,
//! and the base directory that file-sourced rules are resolved against.

use super::{log_level_of, log_path_of, LogLevel};
use crate::strutil::trim_end_char_str;
use vstd::prelude::*;

verus! {

/// The global section of the configuration.  Loaded once at start and never
/// mutated; every worker reads it.
#[derive(Debug)]
pub struct GlobalConfig {
    pub log_dir: String,
    pub log_prefix: Option<String>,
    pub log_level: String,
    pub rules_dir: String,
}

impl GlobalConfig {
    /// The defaults: `logs` directory, no prefix, `Info` level, rule files
    /// resolved against the working directory.
    pub fn new() -> (r: GlobalConfig)
        ensures
            r.log_dir@ == "logs"@,
            r.log_prefix is None,
            r.log_level@ == "Info"@,
            r.rules_dir@ == "."@,
    {
        GlobalConfig {
            log_dir: Self::default_log_dir(),
            log_prefix: Self::default_log_prefix(),
            log_level: Self::default_log_level(),
            rules_dir: Self::default_rules_dir(),
        }
    }

    pub fn default_log_dir() -> (r: String)
        ensures
            r@ == "logs"@,
    {
        "logs".to_owned()
    }

    pub fn default_log_prefix() -> (r: Option<String>)
        ensures
            r is None,
    {
        None
    }

    pub fn default_log_level() -> (r: String)
        ensures
            r@ == "Info"@,
    {
        "Info".to_owned()
    }

    pub fn default_rules_dir() -> (r: String)
        ensures
            r@ == "."@,
    {
        ".".to_owned()
    }

    /// The global log file: `<log_dir>/<prefix>.log`, the directory stripped
    /// of trailing slashes, the prefix defaulting to `webhook`.
    pub fn get_log_path(&self) -> (r: String)
        ensures
            r@ == log_path_of(
                self.log_dir@,
                match self.log_prefix {
                    Some(p) => p@,
                    None => "webhook"@,
                },
            ),
    {
        let prefix = match &self.log_prefix {
            Some(p) => p.clone(),
            None => "webhook".to_owned(),
        };
        let mut r = trim_end_char_str(self.log_dir.as_str(), '/');
        r.append("/");
        r.append(prefix.as_str());
        r.append(".log");
        r
    }

    /// The configured log level, rejecting anything but the six level names.
    pub fn get_log_level(&self) -> (r: Result<LogLevel, String>)
        ensures
            match r {
                Ok(l) => log_level_of(self.log_level@) == Some(l),
                Err(_) => log_level_of(self.log_level@) is None,
            },
    {
        super::parse_log_level(self.log_level.as_str())
    }
}

} // verus!
