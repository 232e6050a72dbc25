use crate::config::LoggerConfiguration;
use crate::log::LoggerError;
use crate::log_level::LogLevel;
use crate::retention::{collect_valid, select_count_victims, select_age_victims, RunFolder};
use crate::sys;
use crate::text;
use crate::timestamp::{render_run_name, spec_run_name, Timestamp};
use vstd::prelude::*;

verus! {

/// The logger of one run: a configuration bound to the run's log file.
/// Created once per initialization and immutable from then on; a fresh
/// initialization builds a whole new logger instead of changing this one.
#[derive(Debug)]
pub struct Logger {
    pub config: LoggerConfiguration,
    pub log_file_path: String,
}

/// The log file path of a run: the folder named after `ts` under the
/// configured root, holding `execution_log.<extension>`.
pub open spec fn spec_log_path(config: LoggerConfiguration, ts: Timestamp) -> Seq<char> {
    config.log_dir@ + "/"@ + spec_run_name(ts) + "/execution_log."@ + config.file_extension@
}

/// The text is the log file path of some configuration and some
/// well-formed run timestamp.
pub open spec fn is_log_path(s: Seq<char>) -> bool {
    exists|config: LoggerConfiguration, ts: Timestamp|
        ts.wf() && s == spec_log_path(config, ts)
}

/// One rendered log line: each placeholder of the template replaced in the
/// fixed order — timestamp, executable, system, user, level, message — the
/// level display name padded to a field of at least seven characters, and
/// the result terminated by exactly one newline. Unrecognized tokens stay
/// verbatim, and a value substituted early is itself subject to the later
/// replacements.
pub open spec fn spec_format_message(
    config: LoggerConfiguration,
    message: Seq<char>,
    level: LogLevel,
    rendered_ts: Seq<char>,
) -> Seq<char> {
    let s1 = text::spec_replace(config.spec_message_format(), "{TIMESTAMP}"@, rendered_ts);
    let s2 = text::spec_replace(s1, "{EXE_NAME}"@, config.exe_name@);
    let s3 = text::spec_replace(s2, "{SYSTEM_NAME}"@, config.system_name@);
    let s4 = text::spec_replace(s3, "{USER_NAME}"@, config.user_name@);
    let s5 = text::spec_replace(s4, "{LEVEL}"@, text::spec_pad7(level.display_spec()));
    let s6 = text::spec_replace(s5, "{MESSAGE}"@, message);
    text::spec_with_newline(s6)
}

/// The six placeholder literals each open with the only brace they hold,
/// and no two share their second character.
proof fn lemma_marker_shapes()
    ensures
        text::marker_shape("{TIMESTAMP}"@),
        text::marker_shape("{EXE_NAME}"@),
        text::marker_shape("{SYSTEM_NAME}"@),
        text::marker_shape("{USER_NAME}"@),
        text::marker_shape("{LEVEL}"@),
        text::marker_shape("{MESSAGE}"@),
        "{TIMESTAMP}"@[1] == 'T',
        "{EXE_NAME}"@[1] == 'E',
        "{SYSTEM_NAME}"@[1] == 'S',
        "{USER_NAME}"@[1] == 'U',
        "{LEVEL}"@[1] == 'L',
        "{MESSAGE}"@[1] == 'M',
{
    reveal_strlit("{TIMESTAMP}");
    reveal_strlit("{EXE_NAME}");
    reveal_strlit("{SYSTEM_NAME}");
    reveal_strlit("{USER_NAME}");
    reveal_strlit("{LEVEL}");
    reveal_strlit("{MESSAGE}");
    assert("{TIMESTAMP}"@ =~= seq!['{', 'T', 'I', 'M', 'E', 'S', 'T', 'A', 'M', 'P', '}']);
    assert("{EXE_NAME}"@ =~= seq!['{', 'E', 'X', 'E', '_', 'N', 'A', 'M', 'E', '}']);
    assert("{SYSTEM_NAME}"@ =~= seq!['{', 'S', 'Y', 'S', 'T', 'E', 'M', '_', 'N', 'A', 'M', 'E', '}']);
    assert("{USER_NAME}"@ =~= seq!['{', 'U', 'S', 'E', 'R', '_', 'N', 'A', 'M', 'E', '}']);
    assert("{LEVEL}"@ =~= seq!['{', 'L', 'E', 'V', 'E', 'L', '}']);
    assert("{MESSAGE}"@ =~= seq!['{', 'M', 'E', 'S', 'S', 'A', 'G', 'E', '}']);
}

/// A line rendered from a template holding all six placeholders shows the
/// literal message text and is terminated by exactly one newline: the
/// newline stands at the end and nowhere else. This holds whenever the
/// substituted values carry no brace — a brace could splice with the
/// template into a new placeholder — and template, values and message
/// carry no newline of their own.
pub proof fn lemma_format_round_trip(
    config: LoggerConfiguration,
    message: Seq<char>,
    level: LogLevel,
    tsr: Seq<char>,
)
    requires
        text::spec_contains(config.spec_message_format(), "{TIMESTAMP}"@),
        text::spec_contains(config.spec_message_format(), "{EXE_NAME}"@),
        text::spec_contains(config.spec_message_format(), "{SYSTEM_NAME}"@),
        text::spec_contains(config.spec_message_format(), "{USER_NAME}"@),
        text::spec_contains(config.spec_message_format(), "{LEVEL}"@),
        text::spec_contains(config.spec_message_format(), "{MESSAGE}"@),
        text::char_free(tsr, '{'),
        text::char_free(config.exe_name@, '{'),
        text::char_free(config.system_name@, '{'),
        text::char_free(config.user_name@, '{'),
        text::char_free(level.display_spec(), '{'),
        text::char_free(config.spec_message_format(), '\n'),
        text::char_free(tsr, '\n'),
        text::char_free(config.exe_name@, '\n'),
        text::char_free(config.system_name@, '\n'),
        text::char_free(config.user_name@, '\n'),
        text::char_free(level.display_spec(), '\n'),
        text::char_free(message, '\n'),
    ensures
        ({
            let line = spec_format_message(config, message, level, tsr);
            &&& line.len() > 0
            &&& line[line.len() - 1] == '\n'
            &&& forall|k: int| 0 <= k < line.len() - 1 ==> line[k] != '\n'
            &&& text::spec_contains(line, message)
        }),
{
    lemma_marker_shapes();
    let t = config.spec_message_format();
    let m = "{MESSAGE}"@;
    let padded = text::spec_pad7(level.display_spec());
    text::lemma_pad7_char_free(level.display_spec(), '{');
    text::lemma_pad7_char_free(level.display_spec(), '\n');
    let s1 = text::spec_replace(t, "{TIMESTAMP}"@, tsr);
    let s2 = text::spec_replace(s1, "{EXE_NAME}"@, config.exe_name@);
    let s3 = text::spec_replace(s2, "{SYSTEM_NAME}"@, config.system_name@);
    let s4 = text::spec_replace(s3, "{USER_NAME}"@, config.user_name@);
    let s5 = text::spec_replace(s4, "{LEVEL}"@, padded);
    let s6 = text::spec_replace(s5, m, message);
    text::lemma_replace_preserves_marker(t, "{TIMESTAMP}"@, tsr, m);
    text::lemma_replace_preserves_marker(s1, "{EXE_NAME}"@, config.exe_name@, m);
    text::lemma_replace_preserves_marker(s2, "{SYSTEM_NAME}"@, config.system_name@, m);
    text::lemma_replace_preserves_marker(s3, "{USER_NAME}"@, config.user_name@, m);
    text::lemma_replace_preserves_marker(s4, "{LEVEL}"@, padded, m);
    text::lemma_replace_contains_val(s5, m, message);
    text::lemma_replace_keeps_char_out(t, "{TIMESTAMP}"@, tsr, '\n');
    text::lemma_replace_keeps_char_out(s1, "{EXE_NAME}"@, config.exe_name@, '\n');
    text::lemma_replace_keeps_char_out(s2, "{SYSTEM_NAME}"@, config.system_name@, '\n');
    text::lemma_replace_keeps_char_out(s3, "{USER_NAME}"@, config.user_name@, '\n');
    text::lemma_replace_keeps_char_out(s4, "{LEVEL}"@, padded, '\n');
    text::lemma_replace_keeps_char_out(s5, m, message, '\n');
    let line = spec_format_message(config, message, level, tsr);
    assert(line == s6.push('\n'));
    assert(line[line.len() - 1] == '\n');
    let i = choose|i: int| text::contains_at(s6, message, i);
    assert(text::contains_at(line, message, i)) by {
        assert(line.subrange(i, i + message.len() as int) =~= s6.subrange(
            i,
            i + message.len() as int,
        ));
    }
}

/// A template in which no recognized placeholder occurs is rendered
/// verbatim: unrecognized tokens are left exactly as written, and only the
/// terminating newline is ensured.
pub proof fn lemma_unrecognized_tokens_verbatim(
    config: LoggerConfiguration,
    message: Seq<char>,
    level: LogLevel,
    tsr: Seq<char>,
)
    requires
        !text::spec_contains(config.spec_message_format(), "{TIMESTAMP}"@),
        !text::spec_contains(config.spec_message_format(), "{EXE_NAME}"@),
        !text::spec_contains(config.spec_message_format(), "{SYSTEM_NAME}"@),
        !text::spec_contains(config.spec_message_format(), "{USER_NAME}"@),
        !text::spec_contains(config.spec_message_format(), "{LEVEL}"@),
        !text::spec_contains(config.spec_message_format(), "{MESSAGE}"@),
    ensures
        spec_format_message(config, message, level, tsr) == text::spec_with_newline(
            config.spec_message_format(),
        ),
{
    lemma_marker_shapes();
    let t = config.spec_message_format();
    text::lemma_replace_absent(t, "{TIMESTAMP}"@, tsr);
    text::lemma_replace_absent(t, "{EXE_NAME}"@, config.exe_name@);
    text::lemma_replace_absent(t, "{SYSTEM_NAME}"@, config.system_name@);
    text::lemma_replace_absent(t, "{USER_NAME}"@, config.user_name@);
    text::lemma_replace_absent(t, "{LEVEL}"@, text::spec_pad7(level.display_spec()));
    text::lemma_replace_absent(t, "{MESSAGE}"@, message);
}

impl Logger {
    /// The log file path has the documented shape for some well-formed
    /// run timestamp.
    pub open spec fn wf(&self) -> bool {
        exists|ts: Timestamp| ts.wf() && self.log_file_path@ == spec_log_path(self.config, ts)
    }

    /// Build the logger of a new run. Old run folders are pruned first
    /// under both retention policies, then this run's folder is created and
    /// the startup message is emitted. A failure to list the log root or to
    /// create the folder aborts construction; failed deletions only go to
    /// the error stream.
    pub fn new(config: LoggerConfiguration) -> (r: Result<Logger, LoggerError>)
        ensures
            r is Ok ==> r->Ok_0.wf() && r->Ok_0.config == config,
    {
        if let Some(days) = config.get_days_stored() {
            let names = match sys::list_dir_names(config.get_log_dir()) {
                Some(v) => v,
                None => {
                    return Err(
                        LoggerError::IoError(
                            String::from_str("could not list the log directory"),
                        ),
                    );
                },
            };
            if let Some(cutoff) = sys::local_days_ago(days) {
                let folders = collect_valid(&names);
                let victims = select_age_victims(&folders, &cutoff);
                let mut i: usize = 0;
                while i < victims.len()
                    decreases victims@.len() - i,
                {
                    remove_run_folder(config.get_log_dir(), &victims[i]);
                    i = i + 1;
                }
            }
        }
        if let Some(stored) = config.get_executions_stored() {
            let names = match sys::list_dir_names(config.get_log_dir()) {
                Some(v) => v,
                None => {
                    return Err(
                        LoggerError::IoError(
                            String::from_str("could not list the log directory"),
                        ),
                    );
                },
            };
            let folders = collect_valid(&names);
            let (victims, kept) = select_count_victims(folders, stored);
            let quota = victims.len();
            let mut removed: usize = 0;
            let mut i: usize = 0;
            while i < victims.len()
                invariant
                    removed <= i,
                    i <= victims@.len(),
                decreases victims@.len() - i,
            {
                if remove_run_folder(config.get_log_dir(), &victims[i]) {
                    removed = removed + 1;
                }
                i = i + 1;
            }
            // a failed deletion does not use up the quota: the pass moves
            // on to the next oldest candidates instead
            let mut j: usize = 0;
            while j < kept.len() && removed < quota
                invariant
                    removed <= quota,
                decreases kept@.len() - j,
            {
                if remove_run_folder(config.get_log_dir(), &kept[j]) {
                    removed = removed + 1;
                }
                j = j + 1;
            }
        }
        let now = sys::now_local();
        if now.year < 0 || now.year > 9999 {
            return Err(
                LoggerError::IoError(
                    String::from_str("the clock year cannot name a run folder"),
                ),
            );
        }
        let folder_name = render_run_name(&now);
        let mut path: String = config.get_log_dir().to_owned();
        path.append("/");
        path.append(folder_name.as_str());
        if !sys::make_dir_all(path.as_str()) {
            return Err(
                LoggerError::IoError(String::from_str("could not create the run folder")),
            );
        }
        path.append("/execution_log.");
        path.append(config.get_file_extension());
        proof {
            assert(path@ =~= spec_log_path(config, now));
        }
        let logger = Logger { config, log_file_path: path };
        logger.info("Logger initialized");
        Ok(logger)
    }

    /// The path of this run's log file.
    pub fn get_log_file_path(&self) -> (r: String)
        ensures
            r@ == self.log_file_path@,
    {
        self.log_file_path.clone()
    }

    /// Render a log line from a caller-supplied timestamp text.
    pub fn format_with_timestamp(&self, message: &str, level: &LogLevel, rendered_ts: &str) -> (r:
        String)
        ensures
            r@ == spec_format_message(self.config, message@, *level, rendered_ts@),
    {
        proof {
            reveal_strlit("{TIMESTAMP}");
            reveal_strlit("{EXE_NAME}");
            reveal_strlit("{SYSTEM_NAME}");
            reveal_strlit("{USER_NAME}");
            reveal_strlit("{LEVEL}");
            reveal_strlit("{MESSAGE}");
        }
        let s1 = text::replace_all(self.config.get_message_format(), "{TIMESTAMP}", rendered_ts);
        let s2 = text::replace_all(s1.as_str(), "{EXE_NAME}", self.config.get_exe_name());
        let s3 = text::replace_all(s2.as_str(), "{SYSTEM_NAME}", self.config.get_system_name());
        let s4 = text::replace_all(s3.as_str(), "{USER_NAME}", self.config.get_user_name());
        let padded = text::pad_to_width7(level.display());
        let s5 = text::replace_all(s4.as_str(), "{LEVEL}", padded.as_str());
        let s6 = text::replace_all(s5.as_str(), "{MESSAGE}", message);
        text::ensure_trailing_newline(s6)
    }

    /// Render a log line. The timestamp text is computed only when the
    /// template asks for `{TIMESTAMP}`, since rendering the clock has a
    /// cost; what it reads from the clock is the one part of the line not
    /// pinned down here.
    pub fn format_message(&self, message: &str, level: &LogLevel) -> (r: String)
        ensures
            exists|tsr: Seq<char>|
                r@ == spec_format_message(self.config, message@, *level, tsr),
    {
        proof {
            reveal_strlit("{TIMESTAMP}");
        }
        let rendered_ts: String = if text::contains_sub(
            self.config.get_message_format(),
            "{TIMESTAMP}",
        ) {
            match sys::render_now(self.config.get_timestamp_format()) {
                Some(s) => s,
                // only an unvalidated template can fail to render; the
                // placeholder then reads as empty rather than failing the call
                None => String::new(),
            }
        } else {
            String::new()
        };
        let r = self.format_with_timestamp(message, level, rendered_ts.as_str());
        proof {
            let tsr = rendered_ts@;
            assert(r@ == spec_format_message(self.config, message@, *level, tsr));
        }
        r
    }

    /// Emit one message: suppressed without any work when a filter is set
    /// and the level lies below it; otherwise the line is rendered, written
    /// to standard output, and appended to the run's log file. File trouble
    /// goes to the error stream and never surfaces to the caller.
    pub fn log(&self, message: &str, level: &LogLevel) {
        if self.config.filters_out(level) {
            return ;
        }
        let line = self.format_message(message, level);
        sys::write_stdout(line.as_str());
        match sys::append_to_file(self.log_file_path.as_str(), line.as_str()) {
            sys::AppendOutcome::Written => {},
            sys::AppendOutcome::WriteFailed => {
                sys::write_stderr("Unable to write log message to log file\n");
            },
            sys::AppendOutcome::OpenFailed => {
                sys::write_stderr("Unable to open log file\n");
            },
        }
    }

    /// Emit a message of level INFO.
    pub fn info(&self, message: &str) {
        self.log(message, &LogLevel::Info);
    }

    /// Emit a message of level ERROR.
    pub fn error(&self, message: &str) {
        self.log(message, &LogLevel::Error);
    }

    /// Emit a message of level WARN.
    pub fn warn(&self, message: &str) {
        self.log(message, &LogLevel::Warn);
    }

    /// Emit a message of level DEBUG.
    pub fn debug(&self, message: &str) {
        self.log(message, &LogLevel::Debug);
    }

    /// Emit a message of level TRACE.
    pub fn trace(&self, message: &str) {
        self.log(message, &LogLevel::Trace);
    }

    /// Emit a message of a caller-supplied level.
    pub fn custom(&self, message: &str, level: &LogLevel) {
        self.log(message, level);
    }
}

impl Clone for Logger {
    fn clone(&self) -> (r: Self)
        ensures
            r == *self,
    {
        Logger { config: self.config.clone(), log_file_path: self.log_file_path.clone() }
    }
}

/// Try to remove one run folder under `root`; a failure only goes to the
/// error stream, since a folder left behind is retried on the next run.
fn remove_run_folder(root: &str, folder: &RunFolder) -> (r: bool) {
    let mut path: String = root.to_owned();
    path.append("/");
    path.append(folder.name.as_str());
    let ok = sys::remove_dir_tree(path.as_str());
    if !ok {
        let mut report: String = String::from_str("Failed to delete old log folder ");
        report.append(path.as_str());
        report.append("\n");
        sys::write_stderr(report.as_str());
    }
    ok
}

} // verus!
