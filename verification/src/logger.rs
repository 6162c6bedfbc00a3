//! A leveled, best-effort text logger.  Entries below the configured
//! level are dropped; kept entries are stamped with a colored level
//! prefix and the current UTC time, stored, and echoed to standard
//! output.  Logging failures never propagate into ECS operations.

use std::io::Write;
use colored::Colorize;
use vstd::prelude::*;

verus! {

/// The four message levels, in increasing severity.
#[derive(Debug, Clone, Copy, PartialEq, Eq, Structural)]
pub enum LogLevel {
    Debug,
    Info,
    Warning,
    Error,
}

/// Numeric severity used to compare levels.
pub open spec fn severity(l: LogLevel) -> int {
    match l {
        LogLevel::Debug => 0,
        LogLevel::Info => 1,
        LogLevel::Warning => 2,
        LogLevel::Error => 3,
    }
}

/// A message at `lv` passes a logger configured at `setting`.
pub open spec fn level_passes(setting: LogLevel, lv: LogLevel) -> bool {
    severity(setting) <= severity(lv)
}

fn severity_value(l: LogLevel) -> (r: u8)
    ensures
        r as int == severity(l),
{
    match l {
        LogLevel::Debug => 0,
        LogLevel::Info => 1,
        LogLevel::Warning => 2,
        LogLevel::Error => 3,
    }
}

impl Default for LogLevel {
    /// The default level keeps everything.
    fn default() -> (r: Self)
        ensures
            r == LogLevel::Debug,
    {
        LogLevel::Debug
    }
}

/// One stored log line: its level and its full, formatted text.
#[derive(Debug)]
pub struct LogEntry {
    pub level: LogLevel,
    pub message: String,
}

impl LogEntry {
    pub fn new(level: LogLevel, message: &str) -> (r: Self)
        ensures
            r.level == level,
            r.message@ == message@,
    {
        Self { level, message: String::from_str(message) }
    }
}

/// The logger: a level filter in front of a growing list of entries.
pub struct Logger {
    pub level: LogLevel,
    pub log_entries: Vec<LogEntry>,
}

/// `s` ends with `suffix`.
pub open spec fn ends_with(s: Seq<char>, suffix: Seq<char>) -> bool {
    suffix.len() <= s.len() && s.skip(s.len() - suffix.len()) == suffix
}

/// How one logging call at level `lv` with text `msg` changes a logger:
/// if `lv` passes the configured level, exactly one entry is appended,
/// carrying `lv` and a formatted message that ends with `msg`; otherwise
/// nothing changes.  The stamp in front of `msg` (colored prefix and
/// current time) depends on the clock and the terminal, so only the
/// suffix is pinned down.
pub open spec fn logged(pre: Logger, post: Logger, lv: LogLevel, msg: Seq<char>) -> bool {
    &&& post.level == pre.level
    &&& if level_passes(pre.level, lv) {
        &&& post.log_entries@.len() == pre.log_entries@.len() + 1
        &&& post.log_entries@.subrange(0, pre.log_entries@.len() as int) == pre.log_entries@
        &&& post.log_entries@.last().level == lv
        &&& ends_with(post.log_entries@.last().message@, msg)
    } else {
        post == pre
    }
}

/// As `logged`, but with the message text left open; the registry's
/// contracts use this shape, since its messages embed entity ids.
pub open spec fn logged_at(pre: Logger, post: Logger, lv: LogLevel) -> bool {
    &&& post.level == pre.level
    &&& if level_passes(pre.level, lv) {
        &&& post.log_entries@.len() == pre.log_entries@.len() + 1
        &&& post.log_entries@.subrange(0, pre.log_entries@.len() as int) == pre.log_entries@
        &&& post.log_entries@.last().level == lv
    } else {
        post == pre
    }
}

impl Default for Logger {
    /// A logger that keeps every level and holds no entries yet.
    fn default() -> (r: Self)
        ensures
            r.level == LogLevel::Debug,
            r.log_entries@ =~= Seq::<LogEntry>::empty(),
    {
        Logger { level: LogLevel::Debug, log_entries: Vec::new() }
    }
}

impl Logger {
    pub fn get_log_entires(&self) -> (r: &Vec<LogEntry>)
        ensures
            r@ == self.log_entries@,
    {
        &self.log_entries
    }

    pub fn set_log_level(&mut self, level: LogLevel)
        ensures
            final(self).level == level,
            final(self).log_entries@ == old(self).log_entries@,
    {
        self.level = level;
    }

    pub fn debug(&mut self, message: &str)
        ensures
            logged(*old(self), *final(self), LogLevel::Debug, message@),
    {
        self.log_entry(LogLevel::Debug, message);
    }

    pub fn log(&mut self, message: &str)
        ensures
            logged(*old(self), *final(self), LogLevel::Info, message@),
    {
        self.log_entry(LogLevel::Info, message);
    }

    pub fn warning(&mut self, message: &str)
        ensures
            logged(*old(self), *final(self), LogLevel::Warning, message@),
    {
        self.log_entry(LogLevel::Warning, message);
    }

    pub fn error(&mut self, message: &str)
        ensures
            logged(*old(self), *final(self), LogLevel::Error, message@),
    {
        self.log_entry(LogLevel::Error, message);
    }

    fn log_entry(&mut self, level: LogLevel, message: &str)
        ensures
            logged(*old(self), *final(self), level, message@),
    {
        if severity_value(self.level) > severity_value(level) {
            return;
        }
        proof {
            reveal_strlit("DEBUG:");
            reveal_strlit("INFO:");
            reveal_strlit("WARNING:");
            reveal_strlit("ERROR:");
        }
        let prefix = match level {
            LogLevel::Debug => colorize_green("DEBUG:"),
            LogLevel::Info => colorize_blue("INFO:"),
            LogLevel::Warning => colorize_yellow("WARNING:"),
            LogLevel::Error => colorize_red("ERROR:"),
        };
        let date = utc_now_string();
        let mut full = prefix;
        full.append(" [");
        full.append(date.as_str());
        full.append("]: ");
        full.append(message);
        assert(ends_with(full@, message@)) by {
            assert(full@.skip(full@.len() - message@.len()) =~= message@);
        }
        print_line(full.as_str());
        let entry = LogEntry { level, message: full };
        let ghost pre_entries = self.log_entries@;
        self.log_entries.push(entry);
        proof {
            assert(self.log_entries@.subrange(0, pre_entries.len() as int) =~= pre_entries);
        }
    }
}

/// Relies on colored's `Colorize::green` and `ColoredString`'s `Display`:
/// the text is wrapped in terminal styling (or returned as-is when colors
/// are disabled); either way it stays intact inside the result.
#[verifier::external_body]
fn colorize_green(s: &str) -> (r: String)
    requires
        forall|i: int| 0 <= i < s@.len() ==> s@[i] != '\u{1b}',
    ensures
        exists|a: Seq<char>, b: Seq<char>| r@ == a + s@ + b,
{
    s.green().to_string()
}

/// Relies on colored's `Colorize::blue`, as `colorize_green` does.
#[verifier::external_body]
fn colorize_blue(s: &str) -> (r: String)
    requires
        forall|i: int| 0 <= i < s@.len() ==> s@[i] != '\u{1b}',
    ensures
        exists|a: Seq<char>, b: Seq<char>| r@ == a + s@ + b,
{
    s.blue().to_string()
}

/// Relies on colored's `Colorize::yellow`, as `colorize_green` does.
#[verifier::external_body]
fn colorize_yellow(s: &str) -> (r: String)
    requires
        forall|i: int| 0 <= i < s@.len() ==> s@[i] != '\u{1b}',
    ensures
        exists|a: Seq<char>, b: Seq<char>| r@ == a + s@ + b,
{
    s.yellow().to_string()
}

/// Relies on colored's `Colorize::red`, as `colorize_green` does.
#[verifier::external_body]
fn colorize_red(s: &str) -> (r: String)
    requires
        forall|i: int| 0 <= i < s@.len() ==> s@[i] != '\u{1b}',
    ensures
        exists|a: Seq<char>, b: Seq<char>| r@ == a + s@ + b,
{
    s.red().to_string()
}

/// Relies on chrono's `Utc::now`: the result is the current wall-clock
/// time rendered as text, so nothing is promised about its content.
#[verifier::external_body]
fn utc_now_string() -> String {
    chrono::Utc::now().to_string()
}

/// Relies on `std::io::stdout` and `writeln!`: echoes one line to
/// standard output, best-effort; a write failure is swallowed.
#[verifier::external_body]
fn print_line(s: &str) {
    let mut out = std::io::stdout();
    let _ = writeln!(out, "{}", s);
}

} // verus!
