//! Hook configuration: what command a hook runs, where its logs go, which
//! arguments it passes and under what trigger rule it fires.

pub mod configs;
pub mod global;

use crate::rule::Rule;
use crate::strmap::StrMap;
use crate::strutil::{str_eq, trim_end_char, trim_end_char_str};
use vstd::prelude::*;

verus! {

/// The verbosity levels a configuration may name.
#[derive(Debug, Clone, Copy, PartialEq, Eq, Structural)]
pub enum LogLevel {
    Off,
    Info,
    Warn,
    Error,
    Debug,
    Trace,
}

/// The level a configured name denotes, if any.
pub open spec fn log_level_of(s: Seq<char>) -> Option<LogLevel> {
    if s == "Off"@ {
        Some(LogLevel::Off)
    } else if s == "Info"@ {
        Some(LogLevel::Info)
    } else if s == "Warn"@ {
        Some(LogLevel::Warn)
    } else if s == "Error"@ {
        Some(LogLevel::Error)
    } else if s == "Debug"@ {
        Some(LogLevel::Debug)
    } else if s == "Trace"@ {
        Some(LogLevel::Trace)
    } else {
        None
    }
}

/// Read a level name; anything else is rejected with a message.
pub fn parse_log_level(name: &str) -> (r: Result<LogLevel, String>)
    ensures
        match r {
            Ok(l) => log_level_of(name@) == Some(l),
            Err(_) => log_level_of(name@) is None,
        },
{
    if str_eq(name, "Off") {
        Ok(LogLevel::Off)
    } else if str_eq(name, "Info") {
        Ok(LogLevel::Info)
    } else if str_eq(name, "Warn") {
        Ok(LogLevel::Warn)
    } else if str_eq(name, "Error") {
        Ok(LogLevel::Error)
    } else if str_eq(name, "Debug") {
        Ok(LogLevel::Debug)
    } else if str_eq(name, "Trace") {
        Ok(LogLevel::Trace)
    } else {
        let mut m = "Invalid Log level in config: ".to_owned();
        m.append(name);
        Err(m)
    }
}

/// A log file path: the directory stripped of trailing slashes, a slash,
/// the prefix, and the `.log` ending.
pub open spec fn log_path_of(dir: Seq<char>, prefix: Seq<char>) -> Seq<char> {
    trim_end_char(dir, '/') + "/"@ + prefix + ".log"@
}

/// One hook: its route id, the command it runs and where, the response it
/// answers with, the arguments it passes, its log location and its
/// optional trigger rule.  Built once at load time, then read-only.
pub struct Config {
    pub id: String,
    pub execute_command: String,
    pub command_working_directory: String,
    pub response_message: String,
    pub response_headers: Vec<StrMap>,
    pub pass_arguments_to_command: Vec<StrMap>,
    pub log_dir: String,
    pub log_prefix: Option<String>,
    pub log_level: String,
    pub trigger_rules: Option<Rule>,
}

impl Config {
    /// The default hook, used when no configured id matches: the `default`
    /// id with an empty command that no dispatch can run.
    pub fn new() -> (r: Config)
        ensures
            r.id@ == "default"@,
            r.execute_command@ == Seq::<char>::empty(),
            r.command_working_directory@ == "."@,
            r.response_message@ == Seq::<char>::empty(),
            r.response_headers@.len() == 0,
            r.pass_arguments_to_command@.len() == 0,
            r.log_dir@ == "."@,
            r.log_prefix is None,
            r.log_level@ == "Info"@,
            r.trigger_rules is None,
    {
        Config {
            id: Self::default_id(),
            execute_command: String::new(),
            command_working_directory: ".".to_owned(),
            response_message: Self::default_response_message(),
            response_headers: Self::default_response_headers(),
            pass_arguments_to_command: Self::default_pass_arguments_to_command(),
            log_dir: ".".to_owned(),
            log_prefix: Self::default_log_prefix(),
            log_level: Self::default_log_level(),
            trigger_rules: Self::default_trigger_rules(),
        }
    }

    pub fn default_id() -> (r: String)
        ensures
            r@ == "default"@,
    {
        "default".to_owned()
    }

    pub fn default_execute_command() -> (r: String)
        ensures
            r@ == "src/command/test.sh"@,
    {
        "src/command/test.sh".to_owned()
    }

    pub fn default_log_dir() -> (r: String)
        ensures
            r@ == "logs"@,
    {
        global::GlobalConfig::default_log_dir()
    }

    pub fn default_log_prefix() -> (r: Option<String>)
        ensures
            r is None,
    {
        global::GlobalConfig::default_log_prefix()
    }

    pub fn default_log_level() -> (r: String)
        ensures
            r@ == "Info"@,
    {
        global::GlobalConfig::default_log_level()
    }

    pub fn default_response_message() -> (r: String)
        ensures
            r@ == Seq::<char>::empty(),
    {
        String::new()
    }

    pub fn default_response_headers() -> (r: Vec<StrMap>)
        ensures
            r@.len() == 0,
    {
        Vec::new()
    }

    pub fn default_pass_arguments_to_command() -> (r: Vec<StrMap>)
        ensures
            r@.len() == 0,
    {
        Vec::new()
    }

    pub fn default_trigger_rules() -> (r: Option<Rule>)
        ensures
            r is None,
    {
        None
    }

    /// The hook's log file: `<log_dir>/<prefix-or-id>.log`.
    pub fn get_log_path(&self) -> (r: String)
        ensures
            r@ == log_path_of(
                self.log_dir@,
                match self.log_prefix {
                    Some(p) => p@,
                    None => self.id@,
                },
            ),
    {
        let prefix = match &self.log_prefix {
            Some(p) => p.clone(),
            None => self.id.clone(),
        };
        let mut r = trim_end_char_str(self.log_dir.as_str(), '/');
        r.append("/");
        r.append(prefix.as_str());
        r.append(".log");
        r
    }

    /// The configured log level, rejecting anything but the six level names.
    pub fn get_log_level(&self) -> (r: Result<LogLevel, String>)
        ensures
            match r {
                Ok(l) => log_level_of(self.log_level@) == Some(l),
                Err(_) => log_level_of(self.log_level@) is None,
            },
    {
        parse_log_level(self.log_level.as_str())
    }

    /// The hook's trigger rule, if one is configured.
    pub fn get_trigger_rule(&self) -> (r: Option<&Rule>)
        ensures
            match r {
                Some(t) => self.trigger_rules == Some(*t),
                None => self.trigger_rules is None,
            },
    {
        match &self.trigger_rules {
            Some(t) => Some(t),
            None => None,
        }
    }
}

} // verus!
