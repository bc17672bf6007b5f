//! Settings of the process-wide log sink.
use vstd::prelude::*;

verus! {

/// Where log records go.
#[derive(Debug)]
pub enum LogTarget {
    Stdout,
    /// The embedded web view's console.
    Webview,
    /// Rotating files in this directory, named after the application.
    Folder(String),
}

/// The least severity that is recorded.
#[derive(Clone, Copy, Debug, PartialEq, Eq, Structural)]
pub enum LogLevel {
    Off,
    Error,
    Warn,
    Info,
    Debug,
    Trace,
}

/// How the log sink is set up.
#[derive(Debug)]
pub struct LogSettings {
    pub targets: Vec<LogTarget>,
    /// Bytes a log file may reach before it is rotated.
    pub max_file_size: u64,
    /// Keep every rotated file rather than only the latest.
    pub keep_all_rotated: bool,
    pub level: LogLevel,
    /// Stamp records with local time rather than UTC.
    pub local_time: bool,
}

pub const LOG_DIRECTORY: &'static str = "logs";

pub const MAX_LOG_FILE_SIZE: u64 = 50_000;

/// The application's log sink: standard output, the web view's console and
/// the `logs` directory; files rotate at 50,000 bytes and are all kept;
/// records from `Info` up, stamped in local time.
pub fn log_settings() -> (r: LogSettings)
    ensures
        r.targets@.len() == 3,
        r.targets@[0] is Stdout,
        r.targets@[1] is Webview,
        r.targets@[2] matches LogTarget::Folder(p) && p@ == LOG_DIRECTORY@,
        r.max_file_size == MAX_LOG_FILE_SIZE,
        r.keep_all_rotated,
        r.level == LogLevel::Info,
        r.local_time,
{
    let mut targets: Vec<LogTarget> = Vec::new();
    targets.push(LogTarget::Stdout);
    targets.push(LogTarget::Webview);
    targets.push(LogTarget::Folder(LOG_DIRECTORY.to_owned()));
    LogSettings {
        targets,
        max_file_size: MAX_LOG_FILE_SIZE,
        keep_all_rotated: true,
        level: LogLevel::Info,
        local_time: true,
    }
}

} // verus!
