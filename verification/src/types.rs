//! The values that the supervisor keeps and hands out.

use vstd::prelude::*;
use vstd::string::*;

use crate::text::{copy_optional, copy_pairs, copy_strings};

verus! {

/// How a process came to be registered.
#[derive(Clone, Copy, Debug, PartialEq, Eq, Structural)]
pub enum ProcessMode {
    /// An executable that stays where the user keeps it.
    Fork,
    /// A folder that was copied into a directory the application manages.
    Import,
}

/// How the command of a process is launched.
#[derive(Clone, Copy, Debug, PartialEq, Eq, Structural)]
pub enum CommandType {
    /// The command is run directly as a process image.
    Executable,
    /// The command and its arguments are handed to the shell as one line.
    Shell,
}

/// What a snapshot says of a process.
#[derive(Clone, Copy, Debug, PartialEq, Eq, Structural)]
pub enum ProcessStatus {
    Running,
    Stopped,
    Error,
}

/// Why an operation was refused.
#[derive(Clone, Copy, Debug, PartialEq, Eq, Structural)]
pub enum ProcessError {
    /// The working directory is missing or is no directory.
    InvalidWorkingDir,
    /// The executable that was named does not exist.
    ExecutableNotFound,
    /// The folder to import is missing or is no directory.
    SourceFolderNotFound,
    /// No executable was named and none was found in the imported folder.
    NoExecutableFound,
    /// No process is registered under the identifier.
    ProcessNotFound,
    /// A start was asked for an identifier without a configuration.
    ConfigNotFound,
    /// A start was asked for a process that is running.
    AlreadyRunning,
    /// A stop was asked for a process that is not running.
    NotRunning,
    /// The configuration has no command to launch.
    EmptyCommand,
    /// The process was gone when its readiness was checked.
    ExitedImmediately,
    /// The readiness of the process could not be checked.
    StatusCheckFailed,
}

/// What an error says to the user.
pub open spec fn message_of(error: ProcessError) -> Seq<char> {
    match error {
        ProcessError::InvalidWorkingDir => "Working directory not found"@,
        ProcessError::ExecutableNotFound => "Executable file not found"@,
        ProcessError::SourceFolderNotFound => "Source folder not found"@,
        ProcessError::NoExecutableFound => "No executable found in the folder"@,
        ProcessError::ProcessNotFound => "Process not found"@,
        ProcessError::ConfigNotFound => "Process config not found"@,
        ProcessError::AlreadyRunning => "Process is already running"@,
        ProcessError::NotRunning => "Process is not running"@,
        ProcessError::EmptyCommand => "Command is empty"@,
        ProcessError::ExitedImmediately => "Process exited immediately"@,
        ProcessError::StatusCheckFailed => "Failed to check process status"@,
    }
}

impl ProcessError {
    /// What the error says to the user.
    pub fn message(&self) -> (text: String)
        ensures
            text@ == message_of(*self),
    {
        let text: &str = match self {
            ProcessError::InvalidWorkingDir => "Working directory not found",
            ProcessError::ExecutableNotFound => "Executable file not found",
            ProcessError::SourceFolderNotFound => "Source folder not found",
            ProcessError::NoExecutableFound => "No executable found in the folder",
            ProcessError::ProcessNotFound => "Process not found",
            ProcessError::ConfigNotFound => "Process config not found",
            ProcessError::AlreadyRunning => "Process is already running",
            ProcessError::NotRunning => "Process is not running",
            ProcessError::EmptyCommand => "Command is empty",
            ProcessError::ExitedImmediately => "Process exited immediately",
            ProcessError::StatusCheckFailed => "Failed to check process status",
        };
        text.to_owned()
    }
}

/// The durable description of a launchable process.
#[derive(Clone, Debug)]
pub struct ProcessConfig {
    pub id: String,
    pub name: String,
    pub mode: ProcessMode,
    pub command_type: CommandType,
    pub command: String,
    pub args: Vec<String>,
    pub working_dir: String,
    pub source_path: Option<String>,
    pub env: Vec<(String, String)>,
    pub auto_restart: bool,
    pub auto_start: bool,
    pub created_at: i64,
}

/// A [`ProcessConfig`] as the contracts see it.
pub struct ConfigView {
    pub id: Seq<char>,
    pub name: Seq<char>,
    pub mode: ProcessMode,
    pub command_type: CommandType,
    pub command: Seq<char>,
    pub args: Seq<Seq<char>>,
    pub working_dir: Seq<char>,
    pub source_path: Option<Seq<char>>,
    pub env: Seq<(Seq<char>, Seq<char>)>,
    pub auto_restart: bool,
    pub auto_start: bool,
    pub created_at: i64,
}

impl View for ProcessConfig {
    type V = ConfigView;

    open spec fn view(&self) -> ConfigView {
        ConfigView {
            id: self.id@,
            name: self.name@,
            mode: self.mode,
            command_type: self.command_type,
            command: self.command@,
            args: self.args.deep_view(),
            working_dir: self.working_dir@,
            source_path: self.source_path.deep_view(),
            env: self.env.deep_view(),
            auto_restart: self.auto_restart,
            auto_start: self.auto_start,
            created_at: self.created_at,
        }
    }
}

impl ProcessConfig {
    /// A copy with the same contents.
    pub fn duplicate(&self) -> (copy: ProcessConfig)
        ensures
            copy@ == self@,
    {
        ProcessConfig {
            id: self.id.clone(),
            name: self.name.clone(),
            mode: self.mode,
            command_type: self.command_type,
            command: self.command.clone(),
            args: copy_strings(&self.args),
            working_dir: self.working_dir.clone(),
            source_path: copy_optional(&self.source_path),
            env: copy_pairs(&self.env),
            auto_restart: self.auto_restart,
            auto_start: self.auto_start,
            created_at: self.created_at,
        }
    }
}

/// A process that is alive: the identifier the system gave it, the
/// configuration it was launched from and the time of the launch.
#[derive(Clone, Debug)]
pub struct RunningProcess {
    pub pid: u32,
    pub config: ProcessConfig,
    pub started_at: i64,
}

/// A [`RunningProcess`] as the contracts see it.
pub struct RunningView {
    pub pid: u32,
    pub config: ConfigView,
    pub started_at: i64,
}

impl View for RunningProcess {
    type V = RunningView;

    open spec fn view(&self) -> RunningView {
        RunningView { pid: self.pid, config: self.config@, started_at: self.started_at }
    }
}

/// A snapshot of one process: its configuration and what is known of its run.
#[derive(Clone, Debug)]
pub struct ProcessInfo {
    pub id: String,
    pub name: String,
    pub mode: ProcessMode,
    pub command_type: CommandType,
    pub command: String,
    pub args: Vec<String>,
    pub working_dir: String,
    pub source_path: Option<String>,
    pub status: ProcessStatus,
    pub pid: Option<u32>,
    pub auto_restart: bool,
    pub auto_start: bool,
    pub started_at: Option<i64>,
    pub created_at: i64,
    pub has_output: bool,
}

/// A [`ProcessInfo`] as the contracts see it.
pub struct InfoView {
    pub id: Seq<char>,
    pub name: Seq<char>,
    pub mode: ProcessMode,
    pub command_type: CommandType,
    pub command: Seq<char>,
    pub args: Seq<Seq<char>>,
    pub working_dir: Seq<char>,
    pub source_path: Option<Seq<char>>,
    pub status: ProcessStatus,
    pub pid: Option<u32>,
    pub auto_restart: bool,
    pub auto_start: bool,
    pub started_at: Option<i64>,
    pub created_at: i64,
    pub has_output: bool,
}

impl View for ProcessInfo {
    type V = InfoView;

    open spec fn view(&self) -> InfoView {
        InfoView {
            id: self.id@,
            name: self.name@,
            mode: self.mode,
            command_type: self.command_type,
            command: self.command@,
            args: self.args.deep_view(),
            working_dir: self.working_dir@,
            source_path: self.source_path.deep_view(),
            status: self.status,
            pid: self.pid,
            auto_restart: self.auto_restart,
            auto_start: self.auto_start,
            started_at: self.started_at,
            created_at: self.created_at,
            has_output: self.has_output,
        }
    }
}

/// The snapshot of a process with this configuration: running with the
/// given process identifier and start time where `live` holds them, stopped
/// otherwise.
pub open spec fn snapshot_of(config: ConfigView, live: Option<(u32, i64)>, has_output: bool)
    -> InfoView {
    InfoView {
        id: config.id,
        name: config.name,
        mode: config.mode,
        command_type: config.command_type,
        command: config.command,
        args: config.args,
        working_dir: config.working_dir,
        source_path: config.source_path,
        status: if live is Some {
            ProcessStatus::Running
        } else {
            ProcessStatus::Stopped
        },
        pid: match live {
            Some(run) => Some(run.0),
            None => None,
        },
        auto_restart: config.auto_restart,
        auto_start: config.auto_start,
        started_at: match live {
            Some(run) => Some(run.1),
            None => None,
        },
        created_at: config.created_at,
        has_output,
    }
}

/// Builds the snapshot that [`snapshot_of`] describes.
pub fn snapshot(config: &ProcessConfig, live: Option<(u32, i64)>, has_output: bool) -> (info:
    ProcessInfo)
    ensures
        info@ == snapshot_of(config@, live, has_output),
{
    ProcessInfo {
        id: config.id.clone(),
        name: config.name.clone(),
        mode: config.mode,
        command_type: config.command_type,
        command: config.command.clone(),
        args: copy_strings(&config.args),
        working_dir: config.working_dir.clone(),
        source_path: copy_optional(&config.source_path),
        status: if live.is_some() {
            ProcessStatus::Running
        } else {
            ProcessStatus::Stopped
        },
        pid: match live {
            Some(run) => Some(run.0),
            None => None,
        },
        auto_restart: config.auto_restart,
        auto_start: config.auto_start,
        started_at: match live {
            Some(run) => Some(run.1),
            None => None,
        },
        created_at: config.created_at,
        has_output,
    }
}

/// One captured line on its way to whoever listens.
#[derive(Clone, Debug)]
pub struct ProcessOutputEvent {
    pub id: String,
    pub output_type: String,
    pub line: String,
    pub timestamp: i64,
}

/// A [`ProcessOutputEvent`] as the contracts see it.
pub struct OutputEventView {
    pub id: Seq<char>,
    pub output_type: Seq<char>,
    pub line: Seq<char>,
    pub timestamp: i64,
}

impl View for ProcessOutputEvent {
    type V = OutputEventView;

    open spec fn view(&self) -> OutputEventView {
        OutputEventView {
            id: self.id@,
            output_type: self.output_type@,
            line: self.line@,
            timestamp: self.timestamp,
        }
    }
}

} // verus!
