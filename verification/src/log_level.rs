use vstd::prelude::*;

verus! {

/// Severity tag for a log message. Built-in variants have fixed severities
/// (`Error` = 50, `Warn` = 40, `Info` = 30, `Debug` = 20, `Trace` = 10);
/// `Custom` carries an explicit severity and a display name.
#[derive(Debug)]
pub enum LogLevel {
    Error,
    Warn,
    Info,
    Debug,
    Trace,
    Custom(i32, String),
}

impl LogLevel {
    /// The integer severity of a level; ordering and filtering go by this
    /// value alone, so two custom levels with the same severity rank equal.
    pub open spec fn severity_spec(&self) -> int {
        match self {
            LogLevel::Error => 50,
            LogLevel::Warn => 40,
            LogLevel::Info => 30,
            LogLevel::Debug => 20,
            LogLevel::Trace => 10,
            LogLevel::Custom(value, _) => *value as int,
        }
    }

    /// Integer severity of this level.
    pub fn severity(&self) -> (r: i32)
        ensures
            r as int == self.severity_spec(),
    {
        match self {
            LogLevel::Error => 50,
            LogLevel::Warn => 40,
            LogLevel::Info => 30,
            LogLevel::Debug => 20,
            LogLevel::Trace => 10,
            LogLevel::Custom(value, _) => *value,
        }
    }

    /// The name a level shows in a log line: the fixed uppercase name of a
    /// built-in level, the user's own name for a custom one.
    pub open spec fn display_spec(&self) -> Seq<char> {
        match self {
            LogLevel::Error => "ERROR"@,
            LogLevel::Warn => "WARN"@,
            LogLevel::Info => "INFO"@,
            LogLevel::Debug => "DEBUG"@,
            LogLevel::Trace => "TRACE"@,
            LogLevel::Custom(_, name) => name@,
        }
    }

    /// The display name of this level.
    pub fn display(&self) -> (r: String)
        ensures
            r@ == self.display_spec(),
    {
        match self {
            LogLevel::Error => String::from_str("ERROR"),
            LogLevel::Warn => String::from_str("WARN"),
            LogLevel::Info => String::from_str("INFO"),
            LogLevel::Debug => String::from_str("DEBUG"),
            LogLevel::Trace => String::from_str("TRACE"),
            LogLevel::Custom(_, name) => name.clone(),
        }
    }
}

impl PartialEq for LogLevel {
    /// Structural equality: custom levels are equal when both severity and
    /// name agree. (Ordering, by contrast, goes by severity alone.)
    fn eq(&self, other: &Self) -> (r: bool) {
        match (self, other) {
            (LogLevel::Error, LogLevel::Error) => true,
            (LogLevel::Warn, LogLevel::Warn) => true,
            (LogLevel::Info, LogLevel::Info) => true,
            (LogLevel::Debug, LogLevel::Debug) => true,
            (LogLevel::Trace, LogLevel::Trace) => true,
            (LogLevel::Custom(v1, n1), LogLevel::Custom(v2, n2)) => *v1 == *v2 && *n1 == *n2,
            _ => false,
        }
    }
}

impl Eq for LogLevel {

}

impl vstd::std_specs::cmp::PartialEqSpecImpl for LogLevel {
    open spec fn obeys_eq_spec() -> bool {
        true
    }

    open spec fn eq_spec(&self, other: &Self) -> bool {
        match (self, other) {
            (LogLevel::Error, LogLevel::Error) => true,
            (LogLevel::Warn, LogLevel::Warn) => true,
            (LogLevel::Info, LogLevel::Info) => true,
            (LogLevel::Debug, LogLevel::Debug) => true,
            (LogLevel::Trace, LogLevel::Trace) => true,
            (LogLevel::Custom(v1, n1), LogLevel::Custom(v2, n2)) => v1 == v2 && n1@ == n2@,
            _ => false,
        }
    }
}

impl PartialOrd for LogLevel {
    /// Levels order strictly by severity: two levels of one severity
    /// compare equal whatever their names.
    fn partial_cmp(&self, other: &Self) -> (r: Option<core::cmp::Ordering>) {
        let s = self.severity();
        let o = other.severity();
        if s < o {
            Some(core::cmp::Ordering::Less)
        } else if s == o {
            Some(core::cmp::Ordering::Equal)
        } else {
            Some(core::cmp::Ordering::Greater)
        }
    }
}

impl vstd::std_specs::cmp::PartialOrdSpecImpl for LogLevel {
    open spec fn obeys_partial_cmp_spec() -> bool {
        true
    }

    open spec fn partial_cmp_spec(&self, other: &Self) -> Option<core::cmp::Ordering> {
        if self.severity_spec() < other.severity_spec() {
            Some(core::cmp::Ordering::Less)
        } else if self.severity_spec() == other.severity_spec() {
            Some(core::cmp::Ordering::Equal)
        } else {
            Some(core::cmp::Ordering::Greater)
        }
    }
}

impl Clone for LogLevel {
    fn clone(&self) -> (r: Self)
        ensures
            r == *self,
    {
        match self {
            LogLevel::Error => LogLevel::Error,
            LogLevel::Warn => LogLevel::Warn,
            LogLevel::Info => LogLevel::Info,
            LogLevel::Debug => LogLevel::Debug,
            LogLevel::Trace => LogLevel::Trace,
            LogLevel::Custom(value, name) => LogLevel::Custom(*value, name.clone()),
        }
    }
}

impl<'a> From<&'a LogLevel> for i32 {
    /// The integer severity of a level, its one ordering key.
    fn from(level: &'a LogLevel) -> (r: i32) {
        level.severity()
    }
}

impl<'a> vstd::std_specs::convert::FromSpecImpl<&'a LogLevel> for i32 {
    open spec fn obeys_from_spec() -> bool {
        true
    }

    open spec fn from_spec(level: &'a LogLevel) -> i32 {
        level.severity_spec() as i32
    }
}

/// A message of level `level` is suppressed under filter `filter`: a filter
/// is set and the message's severity lies strictly below it.
pub open spec fn filtered_out(level: LogLevel, filter: Option<LogLevel>) -> bool {
    match filter {
        Some(f) => level.severity_spec() < f.severity_spec(),
        None => false,
    }
}

/// Severity orders filtering: a level strictly below another is suppressed
/// when the higher one filters, while a level is never suppressed by its own
/// severity or any lower filter.
pub proof fn lemma_severity_filtering(a: LogLevel, b: LogLevel)
    requires
        a.severity_spec() < b.severity_spec(),
    ensures
        filtered_out(a, Some(b)),
        forall|c: LogLevel|
            c.severity_spec() <= a.severity_spec() ==> !filtered_out(a, Some(c)),
{
}

} // verus!
