use crate::config::LoggerConfiguration;
use crate::log_level::LogLevel;
use crate::logger::{is_log_path, Logger};
use crate::sys;
use std::sync::Arc;
use vstd::prelude::*;

verus! {

/// Error surfaced by `initialize`: the one operation whose failures reach
/// the caller instead of the error stream.
#[derive(Debug)]
pub enum LoggerError {
    IoError(String),
}

/// The slot holding the currently active logger: empty until the first
/// initialization, then atomically replaceable at any time. Readers never
/// block a replace and a replace never blocks readers; a reader that took
/// its snapshot before a replace keeps a fully usable logger.
#[verifier::external_body]
pub struct Registry {
    slot: arc_swap::ArcSwapOption<Logger>,
}

impl Registry {
    /// An empty slot: no logger is active until the first initialization.
    /// Relies on arc_swap::ArcSwapOption::from holding exactly the given
    /// value, here none.
    #[verifier::external_body]
    pub fn new() -> (r: Registry) {
        Registry { slot: arc_swap::ArcSwapOption::from(None) }
    }

    /// Install `logger` as the active one, replacing any previous one.
    /// Relies on arc_swap::ArcSwapAny::store: an atomic replace that leaves
    /// every previously taken snapshot intact.
    #[verifier::external_body]
    pub fn install(&self, logger: Logger)
        requires
            logger.wf(),
    {
        self.slot.store(Some(Arc::new(logger)));
    }

    /// A snapshot of the active logger, or nothing before the first
    /// installation. Relies on arc_swap::ArcSwapAny::load_full: an atomic
    /// read yielding a value some `install` stored — and every installed
    /// logger was admitted well formed.
    #[verifier::external_body]
    pub fn current(&self) -> (r: Option<Logger>)
        ensures
            r is Some ==> r->0.wf(),
    {
        match self.slot.load_full() {
            Some(logger) => Some((*logger).clone()),
            None => None,
        }
    }
}

/// Build a fresh logger from `config` — pruning old run folders and
/// creating this run's folder — and install it into `registry`. Never
/// rejected because a logger already exists: a later call simply replaces
/// the active logger with a new run. When the build fails, the error is
/// returned and the previously active logger stays in place.
pub fn initialize(registry: &Registry, config: LoggerConfiguration) -> (r: Result<
    (),
    LoggerError,
>)
    ensures
        r matches Err(e) ==> e is IoError,
{
    match Logger::new(config) {
        Ok(logger) => {
            registry.install(logger);
            Ok(())
        },
        Err(e) => Err(e),
    }
}

/// The active run's log file path, or nothing — reported to the error
/// stream — while no logger is initialized.
pub fn get_log_file_path(registry: &Registry) -> (r: Option<String>)
    ensures
        r is Some ==> is_log_path(r->0@),
{
    match registry.current() {
        Some(logger) => Some(logger.get_log_file_path()),
        None => {
            sys::write_stderr("Logger not initialized\n");
            None
        },
    }
}

/// Log an INFO message through the active logger; without one, the call
/// only reports "Logger not initialized" to the error stream.
pub fn info(registry: &Registry, message: &str) {
    match registry.current() {
        Some(logger) => logger.info(message),
        None => sys::write_stderr("Logger not initialized\n"),
    }
}

/// Log an ERROR message through the active logger; without one, the call
/// only reports "Logger not initialized" to the error stream.
pub fn error(registry: &Registry, message: &str) {
    match registry.current() {
        Some(logger) => logger.error(message),
        None => sys::write_stderr("Logger not initialized\n"),
    }
}

/// Log a DEBUG message through the active logger; without one, the call
/// only reports "Logger not initialized" to the error stream.
pub fn debug(registry: &Registry, message: &str) {
    match registry.current() {
        Some(logger) => logger.debug(message),
        None => sys::write_stderr("Logger not initialized\n"),
    }
}

/// Log a TRACE message through the active logger; without one, the call
/// only reports "Logger not initialized" to the error stream.
pub fn trace(registry: &Registry, message: &str) {
    match registry.current() {
        Some(logger) => logger.trace(message),
        None => sys::write_stderr("Logger not initialized\n"),
    }
}

/// Log a WARN message through the active logger; without one, the call
/// only reports "Logger not initialized" to the error stream.
pub fn warn(registry: &Registry, message: &str) {
    match registry.current() {
        Some(logger) => logger.warn(message),
        None => sys::write_stderr("Logger not initialized\n"),
    }
}

/// A custom level with the given display name and severity. Pure
/// construction: the registry is not involved, and for filtering the level
/// counts only through its severity.
pub fn create_custom_level(name: &str, severity: i32) -> (r: LogLevel)
    ensures
        r matches LogLevel::Custom(v, n) && v == severity && n@ == name@,
        r.severity_spec() == severity as int,
        r.display_spec() == name@,
{
    LogLevel::Custom(severity, name.to_owned())
}

/// Log a message of a caller-supplied level through the active logger;
/// without one, the call only reports "Logger not initialized" to the
/// error stream.
pub fn custom(registry: &Registry, message: &str, level: &LogLevel) {
    match registry.current() {
        Some(logger) => logger.custom(message, level),
        None => sys::write_stderr("Logger not initialized\n"),
    }
}

} // verus!
