//! A per-execution logging library: every run of the host process gets its
//! own timestamp-named log folder, old folders are pruned by age and by
//! count, lines are rendered from a configurable template under a severity
//! filter, and the active logger sits in an atomically replaceable slot.

use vstd::prelude::*;

pub mod config;
pub mod log;
pub mod log_level;
pub mod logger;
pub mod retention;
pub mod text;
pub mod timestamp;

mod sys;

pub use config::ConfigError;
pub use config::Identity;
pub use config::LoggerConfiguration;
pub use log::LoggerError;
pub use log::Registry;
pub use log_level::LogLevel;
pub use logger::Logger;

verus! {

} // verus!
