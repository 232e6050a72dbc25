use crate::log_level::{filtered_out, LogLevel};
use crate::sys;
use crate::text;
use vstd::prelude::*;

verus! {

/// Error reported by a configuration setter whose validation failed.
#[derive(Debug)]
pub enum ConfigError {
    InvalidFormat(String),
}

/// The identity fields written into log lines. They describe the running
/// process and are resolved once, when the configuration is built.
#[derive(Debug)]
pub struct Identity {
    pub exe_name: String,
    pub system_name: String,
    pub user_name: String,
}

impl Identity {
    /// Resolve the identity fields. The executable name and the domain
    /// qualifier are handed in by the caller, since they come from the
    /// process environment; host name and user name are looked up here.
    /// A field that cannot be resolved reads "Unknown"; when a domain is
    /// given and the user lookup succeeds, the user reads `DOMAIN\user`.
    pub fn resolve(exe_name: Option<String>, user_domain: Option<String>) -> (r: Identity)
        ensures
            (match exe_name {
                Some(x) => r.exe_name@ == x@,
                None => r.exe_name@ == "Unknown"@,
            }),
    {
        let exe = match exe_name {
            Some(x) => x,
            None => String::from_str("Unknown"),
        };
        let system = match sys::lookup_hostname() {
            Some(h) => h,
            None => String::from_str("Unknown"),
        };
        let user = match sys::lookup_username() {
            Some(u) => match user_domain {
                Some(d) => {
                    let mut full = d;
                    full.append("\\");
                    full.append(u.as_str());
                    full
                },
                None => u,
            },
            None => String::from_str("Unknown"),
        };
        Identity { exe_name: exe, system_name: system, user_name: user }
    }
}

/// The built-in message template, used while no custom one is set.
pub open spec fn default_message_format() -> Seq<char> {
    "{TIMESTAMP} | {EXE_NAME} | {SYSTEM_NAME} | {USER_NAME} | {LEVEL} | {MESSAGE}"@
}

fn default_message_format_str() -> (r: &'static str)
    ensures
        r@ == default_message_format(),
{
    "{TIMESTAMP} | {EXE_NAME} | {SYSTEM_NAME} | {USER_NAME} | {LEVEL} | {MESSAGE}"
}

/// The built-in timestamp template: local time with the numeric UTC offset.
pub open spec fn default_timestamp_format() -> Seq<char> {
    "%Y-%m-%d %H:%M:%S%z"@
}

fn default_timestamp_format_str() -> (r: &'static str)
    ensures
        r@ == default_timestamp_format(),
{
    "%Y-%m-%d %H:%M:%S%z"
}

/// The settings of one logger: where run folders live, how long they are
/// kept, which severities show, and how lines are rendered.
#[derive(Debug)]
pub struct LoggerConfiguration {
    pub log_dir: String,
    pub file_extension: String,
    pub days_stored: Option<u32>,
    pub executions_stored: Option<u32>,
    pub filter_log_level: Option<LogLevel>,
    pub exe_name: String,
    pub system_name: String,
    pub user_name: String,
    pub message_format: Option<String>,
    pub timestamp_format: Option<String>,
}

impl LoggerConfiguration {
    /// The message template in force: the configured one, or the built-in
    /// default while none is set.
    pub open spec fn spec_message_format(&self) -> Seq<char> {
        match self.message_format {
            Some(f) => f@,
            None => default_message_format(),
        }
    }

    /// The timestamp template in force: the configured one, or the built-in
    /// default while none is set.
    pub open spec fn spec_timestamp_format(&self) -> Seq<char> {
        match self.timestamp_format {
            Some(f) => f@,
            None => default_timestamp_format(),
        }
    }

    /// Everything but the two format templates and the filter is the same
    /// in `self` and `other`.
    pub open spec fn same_but_formats(&self, other: &LoggerConfiguration) -> bool {
        &&& self.log_dir == other.log_dir
        &&& self.file_extension == other.file_extension
        &&& self.days_stored == other.days_stored
        &&& self.executions_stored == other.executions_stored
        &&& self.filter_log_level == other.filter_log_level
        &&& self.exe_name == other.exe_name
        &&& self.system_name == other.system_name
        &&& self.user_name == other.user_name
    }

    /// Build a configuration. Pure construction: the filesystem is not
    /// touched, and both format templates start out unset, falling back to
    /// the built-in defaults.
    pub fn new(
        log_dir: String,
        file_extension: &str,
        days_stored: Option<u32>,
        executions_stored: Option<u32>,
        filter_log_level: Option<LogLevel>,
        identity: Identity,
    ) -> (r: LoggerConfiguration)
        ensures
            r.log_dir == log_dir,
            r.file_extension@ == file_extension@,
            r.days_stored == days_stored,
            r.executions_stored == executions_stored,
            r.filter_log_level == filter_log_level,
            r.exe_name == identity.exe_name,
            r.system_name == identity.system_name,
            r.user_name == identity.user_name,
            r.message_format is None,
            r.timestamp_format is None,
    {
        LoggerConfiguration {
            log_dir,
            file_extension: file_extension.to_owned(),
            days_stored,
            executions_stored,
            filter_log_level,
            exe_name: identity.exe_name,
            system_name: identity.system_name,
            user_name: identity.user_name,
            message_format: None,
            timestamp_format: None,
        }
    }

    /// Replace the severity filter; any level is acceptable.
    pub fn set_filter_level(&mut self, filter_level: LogLevel)
        ensures
            final(self).filter_log_level == Some(filter_level),
            final(self).message_format == old(self).message_format,
            final(self).timestamp_format == old(self).timestamp_format,
            final(self).same_but_formats(&(LoggerConfiguration {
                filter_log_level: Some(filter_level),
                ..*old(self)
            })),
    {
        self.filter_log_level = Some(filter_level);
    }

    /// The severity filter in force, if any.
    pub fn get_filter_level(&self) -> (r: Option<LogLevel>)
        ensures
            r == self.filter_log_level,
    {
        match &self.filter_log_level {
            Some(level) => Some(level.clone()),
            None => None,
        }
    }

    /// Whether a message of level `level` is suppressed under the filter.
    pub fn filters_out(&self, level: &LogLevel) -> (r: bool)
        ensures
            r == filtered_out(*level, self.filter_log_level),
    {
        match &self.filter_log_level {
            Some(f) => level.severity() < f.severity(),
            None => false,
        }
    }

    /// The message template in force.
    pub fn get_message_format(&self) -> (r: &str)
        ensures
            r@ == self.spec_message_format(),
    {
        match &self.message_format {
            Some(x) => x.as_str(),
            None => default_message_format_str(),
        }
    }

    /// Replace the message template. A template is accepted exactly when it
    /// holds both the `{MESSAGE}` and the `{LEVEL}` placeholder (checked in
    /// that order); a rejected template leaves the previous one in force and
    /// only reports the error.
    pub fn set_message_format(&mut self, format: &str) -> (r: Result<(), ConfigError>)
        ensures
            r is Ok <==> text::spec_contains(format@, "{MESSAGE}"@) && text::spec_contains(
                format@,
                "{LEVEL}"@,
            ),
            r is Ok ==> (final(self).message_format matches Some(f) && f@ == format@),
            r is Ok ==> final(self).timestamp_format == old(self).timestamp_format,
            r is Err ==> *final(self) == *old(self),
            final(self).same_but_formats(old(self)),
            (match r {
                Ok(_) => true,
                Err(ConfigError::InvalidFormat(m)) => if !text::spec_contains(
                    format@,
                    "{MESSAGE}"@,
                ) {
                    m@ == "Message format must contain {MESSAGE}"@
                } else {
                    m@ == "Message format must contain {LEVEL}"@
                },
            }),
    {
        proof {
            reveal_strlit("{MESSAGE}");
            reveal_strlit("{LEVEL}");
        }
        if !text::contains_sub(format, "{MESSAGE}") {
            sys::write_stderr("Message format must contain {MESSAGE}. Message format is unchanged\n");
            Err(ConfigError::InvalidFormat(String::from_str("Message format must contain {MESSAGE}")))
        } else if !text::contains_sub(format, "{LEVEL}") {
            sys::write_stderr("Message format must contain {LEVEL}. Message format is unchanged\n");
            Err(ConfigError::InvalidFormat(String::from_str("Message format must contain {LEVEL}")))
        } else {
            self.message_format = Some(format.to_owned());
            Ok(())
        }
    }

    /// The timestamp template in force.
    pub fn get_timestamp_format(&self) -> (r: &str)
        ensures
            r@ == self.spec_timestamp_format(),
    {
        match &self.timestamp_format {
            Some(x) => x.as_str(),
            None => default_timestamp_format_str(),
        }
    }

    /// Replace the timestamp template. The template is tried on the current
    /// time; one that fails to render is rejected, leaving the previous
    /// template in force and only reporting the error. Which templates
    /// render is decided by the calendar library behind `sys::render_now`.
    pub fn set_timestamp_format(&mut self, format: &str) -> (r: Result<(), ConfigError>)
        ensures
            r is Ok ==> (final(self).timestamp_format matches Some(f) && f@ == format@),
            r is Ok ==> final(self).message_format == old(self).message_format,
            r is Err ==> *final(self) == *old(self),
            final(self).same_but_formats(old(self)),
            (match r {
                Ok(_) => true,
                Err(ConfigError::InvalidFormat(m)) => m@ == "Invalid timestamp format"@,
            }),
    {
        match sys::render_now(format) {
            Some(_) => {
                self.timestamp_format = Some(format.to_owned());
                Ok(())
            },
            None => {
                sys::write_stderr("Invalid timestamp format. Timestamp format is unchanged\n");
                Err(ConfigError::InvalidFormat(String::from_str("Invalid timestamp format")))
            },
        }
    }

    /// The configured system name.
    pub fn get_system_name(&self) -> (r: &str)
        ensures
            r@ == self.system_name@,
    {
        self.system_name.as_str()
    }

    /// The configured executable name.
    pub fn get_exe_name(&self) -> (r: &str)
        ensures
            r@ == self.exe_name@,
    {
        self.exe_name.as_str()
    }

    /// The configured user name.
    pub fn get_user_name(&self) -> (r: &str)
        ensures
            r@ == self.user_name@,
    {
        self.user_name.as_str()
    }

    /// The root directory holding the run folders.
    pub fn get_log_dir(&self) -> (r: &str)
        ensures
            r@ == self.log_dir@,
    {
        self.log_dir.as_str()
    }

    /// The extension of the log file.
    pub fn get_file_extension(&self) -> (r: &str)
        ensures
            r@ == self.file_extension@,
    {
        self.file_extension.as_str()
    }

    /// How many days run folders are kept, if limited.
    pub fn get_days_stored(&self) -> (r: Option<u32>)
        ensures
            r == self.days_stored,
    {
        self.days_stored
    }

    /// How many run folders are kept, if limited.
    pub fn get_executions_stored(&self) -> (r: Option<u32>)
        ensures
            r == self.executions_stored,
    {
        self.executions_stored
    }
}

impl Clone for LoggerConfiguration {
    fn clone(&self) -> (r: Self)
        ensures
            r == *self,
    {
        LoggerConfiguration {
            log_dir: self.log_dir.clone(),
            file_extension: self.file_extension.clone(),
            days_stored: self.days_stored,
            executions_stored: self.executions_stored,
            filter_log_level: (match &self.filter_log_level {
                Some(level) => Some(level.clone()),
                None => None,
            }),
            exe_name: self.exe_name.clone(),
            system_name: self.system_name.clone(),
            user_name: self.user_name.clone(),
            message_format: (match &self.message_format {
                Some(f) => Some(f.clone()),
                None => None,
            }),
            timestamp_format: (match &self.timestamp_format {
                Some(f) => Some(f.clone()),
                None => None,
            }),
        }
    }
}

impl Default for LoggerConfiguration {
    /// A configuration with the default folder `./logs`, extension `txt`,
    /// no retention limits and no filter.
    fn default() -> (r: Self)
        ensures
            r.log_dir@ == "./logs"@,
            r.file_extension@ == "txt"@,
            r.days_stored is None,
            r.executions_stored is None,
            r.filter_log_level is None,
            r.message_format is None,
            r.timestamp_format is None,
    {
        LoggerConfiguration::new(
            String::from_str("./logs"),
            "txt",
            None,
            None,
            None,
            Identity::resolve(None, None),
        )
    }
}

} // verus!
