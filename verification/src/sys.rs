//! Thin trusted shims around the platform capabilities the logger needs:
//! clock and calendar arithmetic, identity lookup, and the filesystem.
//! Everything that decides anything is verified code elsewhere; these
//! functions only carry values across the boundary.

use crate::timestamp::Timestamp;
use std::fmt::Write;
use vstd::prelude::*;

verus! {

/// Outcome of appending a line to the log file.
pub(crate) enum AppendOutcome {
    Written,
    OpenFailed,
    WriteFailed,
}

/// Relies on whoami::fallible::hostname: the system's host name, when the
/// platform can tell it.
#[verifier::external_body]
pub(crate) fn lookup_hostname() -> (r: Option<String>) {
    whoami::fallible::hostname().ok()
}

/// Relies on whoami::fallible::username: the name of the user running the
/// process, when the platform can tell it.
#[verifier::external_body]
pub(crate) fn lookup_username() -> (r: Option<String>) {
    whoami::fallible::username().ok()
}

/// Relies on chrono::Local::now and its Datelike/Timelike accessors: the
/// current local date and time, field by field. chrono only represents real
/// calendar dates, so the fields are in range; the year may still lie
/// outside the four-digit span a run-folder name can hold.
#[verifier::external_body]
pub(crate) fn now_local() -> (r: Timestamp)
    ensures
        r.fields_in_range(),
{
    let n = chrono::Local::now().naive_local();
    Timestamp {
        year: chrono::Datelike::year(&n),
        month: chrono::Datelike::month(&n),
        day: chrono::Datelike::day(&n),
        hour: chrono::Timelike::hour(&n),
        minute: chrono::Timelike::minute(&n),
        second: chrono::Timelike::second(&n),
    }
}

/// Relies on chrono::TimeDelta::try_days and
/// chrono::NaiveDateTime::checked_sub_signed: the local time `days` days
/// ago, or nothing when that time falls outside chrono's calendar range.
#[verifier::external_body]
pub(crate) fn local_days_ago(days: u32) -> (r: Option<Timestamp>)
    ensures
        r is Some ==> r->0.fields_in_range(),
{
    let delta = chrono::TimeDelta::try_days(days as i64)?;
    let c = chrono::Local::now().naive_local().checked_sub_signed(delta)?;
    Some(Timestamp {
        year: chrono::Datelike::year(&c),
        month: chrono::Datelike::month(&c),
        day: chrono::Datelike::day(&c),
        hour: chrono::Timelike::hour(&c),
        minute: chrono::Timelike::minute(&c),
        second: chrono::Timelike::second(&c),
    })
}

/// Relies on chrono's format machinery: render the current local time under
/// the template `fmt`, or nothing when the template fails to render.
#[verifier::external_body]
pub(crate) fn render_now(fmt: &str) -> (r: Option<String>) {
    let mut out = String::new();
    match write!(out, "{}", chrono::Local::now().format(fmt)) {
        Ok(_) => Some(out),
        Err(_) => None,
    }
}

/// Relies on fs_err::read_dir: the names of the entries of `path` that are
/// directories, skipping entries whose names are not valid text. A root
/// that does not exist yet holds no run folders and lists as empty; any
/// other listing failure yields nothing.
#[verifier::external_body]
pub(crate) fn list_dir_names(path: &str) -> (r: Option<Vec<String>>) {
    match fs_err::read_dir(path) {
        Ok(entries) => Some(
            entries.filter_map(
                |entry| {
                    let entry = entry.ok()?;
                    let is_dir = entry.file_type().ok()?.is_dir();
                    if is_dir { entry.file_name().into_string().ok() } else { None }
                },
            ).collect(),
        ),
        Err(e) if e.kind() == std::io::ErrorKind::NotFound => Some(Vec::new()),
        Err(_) => None,
    }
}

/// Relies on fs_err::create_dir_all: create the directory and any missing
/// parents; tells whether it succeeded.
#[verifier::external_body]
pub(crate) fn make_dir_all(path: &str) -> (r: bool) {
    fs_err::create_dir_all(path).is_ok()
}

/// Relies on fs_err::remove_dir_all: delete the directory and everything
/// under it; tells whether it succeeded.
#[verifier::external_body]
pub(crate) fn remove_dir_tree(path: &str) -> (r: bool) {
    fs_err::remove_dir_all(path).is_ok()
}

/// Relies on fs_err::OpenOptions and std::io::Write::write_all: open the
/// file in append mode, creating it when absent, and append the bytes of
/// `line` in one write call.
#[verifier::external_body]
pub(crate) fn append_to_file(path: &str, line: &str) -> (r: AppendOutcome) {
    match fs_err::OpenOptions::new().create(true).write(true).append(true).open(path) {
        Ok(mut file) => match std::io::Write::write_all(&mut file, line.as_bytes()) {
            Ok(_) => AppendOutcome::Written,
            Err(_) => AppendOutcome::WriteFailed,
        },
        Err(_) => AppendOutcome::OpenFailed,
    }
}

/// Relies on std::io::Write::write_all on the standard output handle.
#[verifier::external_body]
pub(crate) fn write_stdout(text: &str) {
    let _ = std::io::Write::write_all(&mut std::io::stdout(), text.as_bytes());
}

/// Relies on std::io::Write::write_all on the standard error handle.
#[verifier::external_body]
pub(crate) fn write_stderr(text: &str) {
    let _ = std::io::Write::write_all(&mut std::io::stderr(), text.as_bytes());
}

} // verus!
