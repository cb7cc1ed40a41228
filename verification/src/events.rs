//! Events the launcher reports while it installs and runs the game, and the
//! errors of the event bus.

use vstd::prelude::*;
use crate::instance::{extract_errors_from_log, log_errors};
use crate::text::{from_chars, join, join_exec, str_views, to_char_vecs};

verus! {

/// Errors that can occur when receiving events.
#[derive(Debug, Clone, PartialEq, Eq, Structural)]
pub enum EventReceiveError {
    /// All senders of the event bus have been dropped
    BusDropped,
    /// The receiver fell behind and missed `skipped` events
    Lagged { skipped: u64 },
}

/// Errors that can occur when trying to receive an event without waiting.
#[derive(Debug, Clone, PartialEq, Eq, Structural)]
pub enum EventTryReceiveError {
    /// No event is available right now
    Empty,
    /// All senders of the event bus have been dropped
    BusDropped,
    /// The receiver fell behind and missed `skipped` events
    Lagged { skipped: u64 },
}

/// Errors that can occur when sending events.
#[derive(Debug, Clone, PartialEq, Eq, Structural)]
pub enum EventSendError {
    /// No receiver is listening; the event was not sent
    NoReceivers,
}

/// Console stream of a game process.
#[derive(Debug, Clone, Copy, PartialEq, Eq, Structural)]
pub enum ConsoleStream {
    /// Standard output
    Stdout,
    /// Standard error
    Stderr,
}

/// A game instance was launched.
#[derive(Debug, Clone)]
pub struct InstanceLaunchedEvent {
    /// Process ID of the launched instance
    pub pid: u32,
    /// Name of the instance
    pub instance_name: String,
    /// Version string, such as `1.20.1-fabric-0.15.0`
    pub version: String,
    /// Username used to launch the instance
    pub username: String,
    /// Launch time, in seconds since the Unix epoch
    pub timestamp: u64,
}

/// The window of a game instance appeared.
#[derive(Debug, Clone)]
pub struct InstanceWindowAppearedEvent {
    /// Process ID of the instance
    pub pid: u32,
    /// Name of the instance
    pub instance_name: String,
    /// Version string
    pub version: String,
    /// Time the window appeared, in seconds since the Unix epoch
    pub timestamp: u64,
}

/// A game instance exited.
#[derive(Debug, Clone)]
pub struct InstanceExitedEvent {
    /// Process ID of the exited instance
    pub pid: u32,
    /// Name of the instance
    pub instance_name: String,
    /// Exit code, `None` when the process was terminated abnormally
    pub exit_code: Option<i32>,
    /// Exit time, in seconds since the Unix epoch
    pub timestamp: u64,
    /// Last lines of `logs/latest.log`, when the exit code is not 0
    pub log_excerpt: Option<Vec<String>>,
    /// Error lines extracted from the log
    pub error_lines: Option<Vec<String>>,
}

/// One line of console output of a game instance.
#[derive(Debug, Clone)]
pub struct ConsoleOutputEvent {
    /// Process ID of the instance
    pub pid: u32,
    /// Name of the instance
    pub instance_name: String,
    /// Stream the line came from
    pub stream: ConsoleStream,
    /// The line
    pub line: String,
    /// Time of the line, in seconds since the Unix epoch
    pub timestamp: u64,
}

/// An instance was deleted.
#[derive(Debug, Clone)]
pub struct InstanceDeletedEvent {
    /// Name of the deleted instance
    pub instance_name: String,
    /// Deletion time, in seconds since the Unix epoch
    pub timestamp: u64,
}

/// Authentication events.
#[derive(Debug, Clone)]
pub enum AuthEvent {
    /// Authentication begins
    AuthenticationStarted { provider: String },
    /// Authentication is ongoing
    AuthenticationInProgress { provider: String, step: String },
    /// Authentication succeeded
    AuthenticationSuccess { provider: String, username: String, uuid: String },
    /// Authentication failed
    AuthenticationFailed { provider: String, error: String },
    /// A valid session already exists
    AlreadyAuthenticated { provider: String, username: String },
}

/// Archive extraction events.
#[derive(Debug, Clone)]
pub enum CoreEvent {
    /// Extraction started
    ExtractionStarted { archive_type: String, file_count: usize, destination: String },
    /// Extraction progress
    ExtractionProgress { files_extracted: usize, total_files: usize },
    /// Extraction completed
    ExtractionCompleted { archive_type: String, files_extracted: usize },
}

/// Java runtime events.
#[derive(Debug, Clone)]
pub enum JavaEvent {
    /// The runtime is not installed
    JavaNotFound { distribution: String, version: u8 },
    /// The runtime is already installed
    JavaAlreadyInstalled { distribution: String, version: u8, binary_path: String },
    /// The download started
    JavaDownloadStarted { distribution: String, version: u8, total_bytes: u64 },
    /// Download progress
    JavaDownloadProgress { bytes: u64 },
    /// The download completed
    JavaDownloadCompleted { distribution: String, version: u8 },
    /// Extraction started
    JavaExtractionStarted { distribution: String, version: u8 },
    /// Extraction progress
    JavaExtractionProgress { files_extracted: usize, total_files: usize },
    /// Extraction completed
    JavaExtractionCompleted { distribution: String, version: u8, binary_path: String },
}

/// Installation and launch events.
#[derive(Debug, Clone)]
pub enum LaunchEvent {
    /// All files are up to date
    IsInstalled { version: String },
    /// Installation started
    InstallStarted { version: String, total_bytes: u64 },
    /// Installation progress
    InstallProgress { bytes: u64 },
    /// Installation completed
    InstallCompleted { version: String, total_bytes: u64 },
    /// The game is about to start
    Launching { version: String },
    /// The game process started
    Launched { version: String, pid: u32 },
    /// The game could not start
    NotLaunched { version: String, error: String },
    /// Output of the game process
    ProcessOutput { pid: u32, stream: String, line: String },
    /// The game process exited
    ProcessExited { pid: u32, exit_code: i32 },
    /// Mod resolution started
    ModResolveStarted { request_count: usize },
    /// One mod request is being fetched
    ModResolveFetching { source: String, identifier: String },
    /// A required dependency was found
    ModResolveDependency { parent: String, dependency: String },
    /// Mod resolution finished
    ModResolveCompleted { total_mods: usize },
}

/// Mod-loader events.
#[derive(Debug, Clone)]
pub enum LoaderEvent {
    /// Fetching the loader manifest
    FetchingData { loader: String, minecraft_version: String, loader_version: String },
    /// Loader manifest retrieved
    DataFetched { loader: String, minecraft_version: String, loader_version: String },
    /// Version not found
    ManifestNotFound {
        loader: String,
        minecraft_version: String,
        loader_version: String,
        error: String,
    },
    /// Using a cached manifest
    ManifestCached { loader: String },
    /// Merging loader data
    MergingLoaderData { base_loader: String, overlay_loader: String },
    /// Loader data merged
    DataMerged { base_loader: String, overlay_loader: String },
}

/// Every event the launcher emits.
#[derive(Debug, Clone)]
pub enum Event {
    Auth(AuthEvent),
    Java(JavaEvent),
    Launch(LaunchEvent),
    Loader(LoaderEvent),
    Core(CoreEvent),
    InstanceLaunched(InstanceLaunchedEvent),
    InstanceWindowAppeared(InstanceWindowAppearedEvent),
    InstanceExited(InstanceExitedEvent),
    ConsoleOutput(ConsoleOutputEvent),
    InstanceDeleted(InstanceDeletedEvent),
}

/// The event reported when a game instance exits: the log excerpt and its
/// error lines are attached only for a non-zero (or missing) exit code and
/// a non-empty excerpt, and the error lines only when there are any.
pub fn instance_exited_event(
    pid: u32,
    instance_name: String,
    exit_code: Option<i32>,
    timestamp: u64,
    latest_log_tail: Option<Vec<String>>,
) -> (r: InstanceExitedEvent)
    ensures
        r.pid == pid,
        r.instance_name == instance_name,
        r.exit_code == exit_code,
        r.timestamp == timestamp,
        exit_code == Some(0i32) ==> r.log_excerpt is None && r.error_lines is None,
        exit_code != Some(0i32) ==> match latest_log_tail {
            Some(logs) => if logs@.len() > 0 {
                r.log_excerpt == Some(logs) && match r.error_lines {
                    Some(e) => e@.len() > 0 && str_views(e@) == log_errors(
                        join(str_views(logs@), "\n"@),
                    ),
                    None => log_errors(join(str_views(logs@), "\n"@)).len() == 0,
                }
            } else {
                r.log_excerpt is None && r.error_lines is None
            },
            None => r.log_excerpt is None && r.error_lines is None,
        },
{
    let mut log_excerpt: Option<Vec<String>> = None;
    let mut error_lines: Option<Vec<String>> = None;
    if exit_code != Some(0i32) {
        match latest_log_tail {
            Some(logs) => {
                if logs.len() > 0 {
                    let parts = to_char_vecs(logs.as_slice());
                    let nl = vec!['\n'];
                    assert(nl@ =~= "\n"@) by {
                        reveal_strlit("\n");
                    }
                    let text = join_exec(&parts, nl.as_slice());
                    let log_text = from_chars(text.as_slice());
                    let errors = extract_errors_from_log(log_text.as_str());
                    log_excerpt = Some(logs);
                    if errors.len() > 0 {
                        error_lines = Some(errors);
                    }
                }
            },
            None => {},
        }
    }
    InstanceExitedEvent { pid, instance_name, exit_code, timestamp, log_excerpt, error_lines }
}

} // verus!
