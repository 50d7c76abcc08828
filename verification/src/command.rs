//! What the library asks of its surroundings, and what it is told.
use crate::cleanup::{RemovalRow, RemovalRowView};
use crate::config::{ConfigFailure, ConfigFailureView, RawConfig, RawConfigView};
use crate::discovery::{DirectoryEntry, DirectoryEntryView};
use crate::filepath::FilePath;
use crate::herdr::{AcknowledgementDocument, AcknowledgementDocumentView};
use crate::herdr::{HerdrSession, HerdrSessionView, SnapshotDocument, SnapshotDocumentView};
use crate::herdr::{ProcessInfoDocument, ProcessInfoDocumentView};
use crate::integration::{ListEnvelope, ListEnvelopeView};
use crate::launch_agent::ScheduleSettings;
use crate::lock::{LockFailure, LockFailureView};
use crate::output::{Event, EventView};
use crate::state::{RepositoryState, RepositoryStateView, SaveFailure, SaveFailureView};
use crate::state::{State, StateView};
use crate::text;
use crate::textmap::TextMap;
use vstd::prelude::*;

verus! {

/// A command to run to its end.
#[derive(Debug, PartialEq, Eq)]
pub struct CommandLine {
    /// The program, looked up in the search path unless it is a path itself.
    pub program: String,
    /// The directory that the program is told to work in, by `-C` before all other arguments.
    pub directory: Option<FilePath>,
    /// The arguments.
    pub arguments: Vec<String>,
    /// The variables that are set for the command.
    pub environment: Vec<(String, String)>,
    /// The variables that are taken out of its environment.
    pub removed: Vec<String>,
    /// How long it may run, in seconds; without it, as long as it takes.
    pub timeout: Option<u64>,
}

/// The content of a [`CommandLine`].
pub struct CommandLineView {
    pub program: Seq<char>,
    pub directory: Option<Seq<u8>>,
    pub arguments: Seq<Seq<char>>,
    pub environment: Seq<(Seq<char>, Seq<char>)>,
    pub removed: Seq<Seq<char>>,
    pub timeout: Option<u64>,
}

impl DeepView for CommandLine {
    type V = CommandLineView;

    open spec fn deep_view(&self) -> CommandLineView {
        CommandLineView {
            program: self.program@,
            directory: self.directory.deep_view(),
            arguments: self.arguments.deep_view(),
            environment: self.environment.deep_view(),
            removed: self.removed.deep_view(),
            timeout: self.timeout,
        }
    }
}

/// A command whose program is a file.
#[derive(Debug, PartialEq, Eq)]
pub struct ProgramLine {
    /// The program.
    pub program: FilePath,
    /// The arguments.
    pub arguments: Vec<String>,
    /// The variables that are set for the command.
    pub environment: Vec<(String, String)>,
    /// The variables that are taken out of its environment.
    pub removed: Vec<String>,
    /// How long it may run, in seconds.
    pub timeout: u64,
}

/// The content of a [`ProgramLine`].
pub struct ProgramLineView {
    pub program: Seq<u8>,
    pub arguments: Seq<Seq<char>>,
    pub environment: Seq<(Seq<char>, Seq<char>)>,
    pub removed: Seq<Seq<char>>,
    pub timeout: u64,
}

impl DeepView for ProgramLine {
    type V = ProgramLineView;

    open spec fn deep_view(&self) -> ProgramLineView {
        ProgramLineView {
            program: self.program@,
            arguments: self.arguments.deep_view(),
            environment: self.environment.deep_view(),
            removed: self.removed.deep_view(),
            timeout: self.timeout,
        }
    }
}

/// How a command ended.
#[derive(Debug, PartialEq, Eq)]
pub enum CommandResult {
    /// It could not be run, for the given reason.
    Failed(String),
    /// It was stopped because it ran too long.
    TimedOut,
    /// It ended by itself, with an exit code unless a signal ended it.
    Exited { code: Option<i32>, stdout: Vec<u8>, stderr: Vec<u8> },
}

/// The content of a [`CommandResult`].
pub enum CommandResultView {
    Failed(Seq<char>),
    TimedOut,
    Exited { code: Option<i32>, stdout: Seq<u8>, stderr: Seq<u8> },
}

impl DeepView for CommandResult {
    type V = CommandResultView;

    open spec fn deep_view(&self) -> CommandResultView {
        match self {
            CommandResult::Failed(value) => CommandResultView::Failed(value@),
            CommandResult::TimedOut => CommandResultView::TimedOut,
            CommandResult::Exited { code, stdout, stderr } => CommandResultView::Exited {
                code: *code,
                stdout: stdout@,
                stderr: stderr@,
            },
        }
    }
}

impl Clone for CommandResult {
    fn clone(&self) -> (copy: Self)
        ensures
            copy.deep_view() == self.deep_view(),
    {
        match self {
            CommandResult::Failed(value) => CommandResult::Failed(value.clone()),
            CommandResult::TimedOut => CommandResult::TimedOut,
            CommandResult::Exited { code, stdout, stderr } => CommandResult::Exited {
                code: *code,
                stdout: text::clone_bytes(stdout),
                stderr: text::clone_bytes(stderr),
            },
        }
    }
}

/// Why a path could not be resolved.
#[derive(Debug, Clone, Copy, PartialEq, Eq, Structural)]
pub enum PathFailureKind {
    NotFound,
    PermissionDenied,
    NotADirectory,
    Other,
}

impl DeepView for PathFailureKind {
    type V = PathFailureKind;

    open spec fn deep_view(&self) -> PathFailureKind {
        *self
    }
}

/// A path that could not be resolved.
#[derive(Debug, PartialEq, Eq)]
pub struct PathFailure {
    pub kind: PathFailureKind,
    pub message: String,
}

/// The content of a [`PathFailure`].
pub struct PathFailureView {
    pub kind: PathFailureKind,
    pub message: Seq<char>,
}

impl DeepView for PathFailure {
    type V = PathFailureView;

    open spec fn deep_view(&self) -> PathFailureView {
        PathFailureView {
            kind: self.kind,
            message: self.message@,
        }
    }
}

impl Clone for PathFailure {
    fn clone(&self) -> (copy: Self)
        ensures
            copy.deep_view() == self.deep_view(),
    {
        PathFailure {
            kind: self.kind,
            message: self.message.clone(),
        }
    }
}

/// A file that could not be written, or a directory that could not be made.
#[derive(Debug, PartialEq, Eq)]
pub struct FileFailure {
    pub path: FilePath,
    pub message: String,
}

/// The content of a [`FileFailure`].
pub struct FileFailureView {
    pub path: Seq<u8>,
    pub message: Seq<char>,
}

impl DeepView for FileFailure {
    type V = FileFailureView;

    open spec fn deep_view(&self) -> FileFailureView {
        FileFailureView {
            path: self.path@,
            message: self.message@,
        }
    }
}

impl Clone for FileFailure {
    fn clone(&self) -> (copy: Self)
        ensures
            copy.deep_view() == self.deep_view(),
    {
        FileFailure {
            path: self.path.clone(),
            message: self.message.clone(),
        }
    }
}

/// Why the settings of a schedule cannot be read.
#[derive(Debug, PartialEq, Eq)]
pub enum SettingsFailure {
    /// Reading the file failed.
    Read(String),
    /// It does not have the form of settings.
    Parse(String),
}

/// The content of a [`SettingsFailure`].
pub enum SettingsFailureView {
    Read(Seq<char>),
    Parse(Seq<char>),
}

impl DeepView for SettingsFailure {
    type V = SettingsFailureView;

    open spec fn deep_view(&self) -> SettingsFailureView {
        match self {
            SettingsFailure::Read(value) => SettingsFailureView::Read(value@),
            SettingsFailure::Parse(value) => SettingsFailureView::Parse(value@),
        }
    }
}

impl Clone for SettingsFailure {
    fn clone(&self) -> (copy: Self)
        ensures
            copy.deep_view() == self.deep_view(),
    {
        match self {
            SettingsFailure::Read(value) => SettingsFailure::Read(value.clone()),
            SettingsFailure::Parse(value) => SettingsFailure::Parse(value.clone()),
        }
    }
}

/// How an editor ended.
#[derive(Debug, PartialEq, Eq)]
pub struct EditorStatus {
    pub success: bool,
    /// How it ended, in words.
    pub shown: String,
}

/// The content of a [`EditorStatus`].
pub struct EditorStatusView {
    pub success: bool,
    pub shown: Seq<char>,
}

impl DeepView for EditorStatus {
    type V = EditorStatusView;

    open spec fn deep_view(&self) -> EditorStatusView {
        EditorStatusView {
            success: self.success,
            shown: self.shown@,
        }
    }
}

impl Clone for EditorStatus {
    fn clone(&self) -> (copy: Self)
        ensures
            copy.deep_view() == self.deep_view(),
    {
        EditorStatus {
            success: self.success,
            shown: self.shown.clone(),
        }
    }
}

/// Something that the library needs done.
#[derive(Debug, PartialEq, Eq)]
pub enum Request {
    /// Run a command.
    Run(CommandLine),
    /// Resolve a path to its canonical form.
    Canonicalize(FilePath),
    /// Run the command that lists the current directories of all processes, where there is one.
    ListCurrentDirectories(CommandLine),
    /// Read the document that a removal prints.
    DecodeRemoval(Vec<u8>),
    /// Read the document in which Worktrunk lists worktrees.
    DecodeList(Vec<u8>),
    /// Resolve those of the paths that can be resolved to their canonical forms.
    Resolve(Vec<FilePath>),
    /// Find out whether something exists at a path.
    Exists(FilePath),
    /// Read the document in which Herdr lists its sessions.
    DecodeSessions(Vec<u8>),
    /// Read the document in which Herdr describes a session.
    DecodeSnapshot(Vec<u8>),
    /// Read the document in which Herdr describes the processes of a pane.
    DecodeProcessInfo(Vec<u8>),
    /// Read the document with which Herdr acknowledges a command.
    DecodeAcknowledgement(Vec<u8>),
    /// List a directory.
    ListDirectory(FilePath),
    /// Find out whether there is a directory at a path, behind symbolic links.
    IsDirectory(FilePath),
    /// Take the lock at `path`, in a directory that is made where it is missing.
    AcquireLock { directory: FilePath, path: FilePath },
    /// Read the configuration file, as far as it can be read.
    LoadConfig(FilePath),
    /// Read a file.
    ReadFile(FilePath),
    /// Read the state document: a versioned one, or one from before there were versions.
    DecodeState { versioned: bool, document: Vec<u8> },
    /// Replace the state file, in a directory that is made where it is missing.
    SaveState { directory: FilePath, path: FilePath, state: State },
    /// Write a record to the output.
    Emit(Event),
    /// Hand on all output.
    Flush,
    /// Run a command whose program is a file.
    RunProgram(ProgramLine),
    /// Read the settings of a schedule, as far as they can be read.
    LoadSettings(FilePath),
    /// Find out whether there is a file that can be executed at a path.
    IsExecutable(FilePath),
    /// Find out whether there is a socket at a path.
    IsSocket(FilePath),
    /// Make a directory where it is missing, and those that it is in.
    CreateDirectories(FilePath),
    /// Replace the file at `path` as a whole, by way of a temporary file beside it, and give it
    /// the given permissions.
    WriteFile { path: FilePath, temporary: FilePath, contents: Vec<u8>, mode: u32 },
    /// Remove a file.
    RemoveFile(FilePath),
    /// Have a file edited.
    RunEditor { editor: FilePath, path: FilePath },
    /// Write a line to the output.
    Print(String),
    /// Write a line to the warnings.
    Warn(String),
}

/// The content of a [`Request`].
pub enum RequestView {
    Run(CommandLineView),
    Canonicalize(Seq<u8>),
    ListCurrentDirectories(CommandLineView),
    DecodeRemoval(Seq<u8>),
    DecodeList(Seq<u8>),
    Resolve(Seq<Seq<u8>>),
    Exists(Seq<u8>),
    DecodeSessions(Seq<u8>),
    DecodeSnapshot(Seq<u8>),
    DecodeProcessInfo(Seq<u8>),
    DecodeAcknowledgement(Seq<u8>),
    ListDirectory(Seq<u8>),
    IsDirectory(Seq<u8>),
    AcquireLock { directory: Seq<u8>, path: Seq<u8> },
    LoadConfig(Seq<u8>),
    ReadFile(Seq<u8>),
    DecodeState { versioned: bool, document: Seq<u8> },
    SaveState { directory: Seq<u8>, path: Seq<u8>, state: StateView },
    Emit(EventView),
    Flush,
    RunProgram(ProgramLineView),
    LoadSettings(Seq<u8>),
    IsExecutable(Seq<u8>),
    IsSocket(Seq<u8>),
    CreateDirectories(Seq<u8>),
    WriteFile { path: Seq<u8>, temporary: Seq<u8>, contents: Seq<u8>, mode: u32 },
    RemoveFile(Seq<u8>),
    RunEditor { editor: Seq<u8>, path: Seq<u8> },
    Print(Seq<char>),
    Warn(Seq<char>),
}

impl DeepView for Request {
    type V = RequestView;

    open spec fn deep_view(&self) -> RequestView {
        match self {
            Request::Run(value) => RequestView::Run(value.deep_view()),
            Request::Canonicalize(value) => RequestView::Canonicalize(value@),
            Request::ListCurrentDirectories(value) => RequestView::ListCurrentDirectories(
                value.deep_view(),
            ),
            Request::DecodeRemoval(value) => RequestView::DecodeRemoval(value@),
            Request::DecodeList(value) => RequestView::DecodeList(value@),
            Request::Resolve(value) => RequestView::Resolve(value.deep_view()),
            Request::Exists(value) => RequestView::Exists(value@),
            Request::DecodeSessions(value) => RequestView::DecodeSessions(value@),
            Request::DecodeSnapshot(value) => RequestView::DecodeSnapshot(value@),
            Request::DecodeProcessInfo(value) => RequestView::DecodeProcessInfo(value@),
            Request::DecodeAcknowledgement(value) => RequestView::DecodeAcknowledgement(value@),
            Request::ListDirectory(value) => RequestView::ListDirectory(value@),
            Request::IsDirectory(value) => RequestView::IsDirectory(value@),
            Request::AcquireLock { directory, path } => RequestView::AcquireLock {
                directory: directory@,
                path: path@,
            },
            Request::LoadConfig(value) => RequestView::LoadConfig(value@),
            Request::ReadFile(value) => RequestView::ReadFile(value@),
            Request::DecodeState { versioned, document } => RequestView::DecodeState {
                versioned: *versioned,
                document: document@,
            },
            Request::SaveState { directory, path, state } => RequestView::SaveState {
                directory: directory@,
                path: path@,
                state: state.deep_view(),
            },
            Request::Emit(value) => RequestView::Emit(value.deep_view()),
            Request::Flush => RequestView::Flush,
            Request::RunProgram(value) => RequestView::RunProgram(value.deep_view()),
            Request::LoadSettings(value) => RequestView::LoadSettings(value@),
            Request::IsExecutable(value) => RequestView::IsExecutable(value@),
            Request::IsSocket(value) => RequestView::IsSocket(value@),
            Request::CreateDirectories(value) => RequestView::CreateDirectories(value@),
            Request::WriteFile { path, temporary, contents, mode } => RequestView::WriteFile {
                path: path@,
                temporary: temporary@,
                contents: contents@,
                mode: *mode,
            },
            Request::RemoveFile(value) => RequestView::RemoveFile(value@),
            Request::RunEditor { editor, path } => RequestView::RunEditor {
                editor: editor@,
                path: path@,
            },
            Request::Print(value) => RequestView::Print(value@),
            Request::Warn(value) => RequestView::Warn(value@),
        }
    }
}

/// What came of a request.
#[derive(Debug, PartialEq, Eq)]
pub enum Reply {
    /// How a command ended.
    Command(CommandResult),
    /// The canonical form of a path.
    Canonical(Result<FilePath, PathFailure>),
    /// How the command that lists current directories ended; none where this platform has none.
    CurrentDirectories(Option<CommandResult>),
    /// The rows of a removal document, or why it is none.
    Removal(Result<Vec<RemovalRow>, String>),
    /// A list of worktrees as Worktrunk prints it, or why it is none.
    List(Result<ListEnvelope, String>),
    /// The paths that could be resolved, each with its canonical form.
    Resolved(Vec<(FilePath, FilePath)>),
    /// Whether there is what was asked for.
    Exists(bool),
    /// Herdr's sessions, or why the document is no list of them.
    Sessions(Result<Vec<HerdrSession>, String>),
    /// The description of a session, or why the document is none.
    Snapshot(Result<SnapshotDocument, String>),
    /// The processes of a pane, or why the document does not tell.
    ProcessInfo(Result<ProcessInfoDocument, String>),
    /// An acknowledgement, or why the document is none.
    Acknowledgement(Result<AcknowledgementDocument, String>),
    /// The entries of a directory, or why it cannot be listed.
    Directory(Result<Vec<DirectoryEntry>, String>),
    /// Whether there is a directory, or why that cannot be found out.
    IsDirectory(Result<bool, String>),
    /// Whether the lock was taken.
    Lock(Result<(), LockFailure>),
    /// The configuration as it is written down, or why there is none.
    Config(Result<RawConfig, ConfigFailure>),
    /// The contents of a file, or why they cannot be read; no contents where there is no file.
    File(Result<Option<Vec<u8>>, String>),
    /// The repositories of a state document, or why it is none.
    StateDocument(Result<TextMap<RepositoryState>, String>),
    /// Whether the state was saved.
    Saved(Result<(), SaveFailure>),
    /// Whether output was written.
    Written(Result<(), String>),
    /// The settings of a schedule as they are written down, or why there are none.
    Settings(Result<ScheduleSettings, SettingsFailure>),
    /// Whether a file was written, or a directory is there.
    Stored(Result<(), FileFailure>),
    /// Whether a file was removed.
    Removed(Result<(), PathFailure>),
    /// How an editor ended, or why it could not be run.
    Edited(Result<EditorStatus, String>),
}

/// The content of a [`Reply`].
pub enum ReplyView {
    Command(CommandResultView),
    Canonical(Result<Seq<u8>, PathFailureView>),
    CurrentDirectories(Option<CommandResultView>),
    Removal(Result<Seq<RemovalRowView>, Seq<char>>),
    List(Result<ListEnvelopeView, Seq<char>>),
    Resolved(Seq<(Seq<u8>, Seq<u8>)>),
    Exists(bool),
    Sessions(Result<Seq<HerdrSessionView>, Seq<char>>),
    Snapshot(Result<SnapshotDocumentView, Seq<char>>),
    ProcessInfo(Result<ProcessInfoDocumentView, Seq<char>>),
    Acknowledgement(Result<AcknowledgementDocumentView, Seq<char>>),
    Directory(Result<Seq<DirectoryEntryView>, Seq<char>>),
    IsDirectory(Result<bool, Seq<char>>),
    Lock(Result<(), LockFailureView>),
    Config(Result<RawConfigView, ConfigFailureView>),
    File(Result<Option<Seq<u8>>, Seq<char>>),
    StateDocument(Result<Map<Seq<char>, RepositoryStateView>, Seq<char>>),
    Saved(Result<(), SaveFailureView>),
    Written(Result<(), Seq<char>>),
    Settings(Result<ScheduleSettings, SettingsFailureView>),
    Stored(Result<(), FileFailureView>),
    Removed(Result<(), PathFailureView>),
    Edited(Result<EditorStatusView, Seq<char>>),
}

impl DeepView for Reply {
    type V = ReplyView;

    open spec fn deep_view(&self) -> ReplyView {
        match self {
            Reply::Command(value) => ReplyView::Command(value.deep_view()),
            Reply::Canonical(value) => ReplyView::Canonical(crate::flow::result_view(*value)),
            Reply::CurrentDirectories(value) => ReplyView::CurrentDirectories(value.deep_view()),
            Reply::Removal(value) => ReplyView::Removal(crate::flow::result_view(*value)),
            Reply::List(value) => ReplyView::List(crate::flow::result_view(*value)),
            Reply::Resolved(value) => ReplyView::Resolved(value.deep_view()),
            Reply::Exists(value) => ReplyView::Exists(*value),
            Reply::Sessions(value) => ReplyView::Sessions(crate::flow::result_view(*value)),
            Reply::Snapshot(value) => ReplyView::Snapshot(crate::flow::result_view(*value)),
            Reply::ProcessInfo(value) => ReplyView::ProcessInfo(crate::flow::result_view(*value)),
            Reply::Acknowledgement(value) => ReplyView::Acknowledgement(
                crate::flow::result_view(*value),
            ),
            Reply::Directory(value) => ReplyView::Directory(crate::flow::result_view(*value)),
            Reply::IsDirectory(value) => ReplyView::IsDirectory(crate::flow::result_view(*value)),
            Reply::Lock(value) => ReplyView::Lock(crate::flow::result_view(*value)),
            Reply::Config(value) => ReplyView::Config(crate::flow::result_view(*value)),
            Reply::File(value) => ReplyView::File(crate::flow::result_view(*value)),
            Reply::StateDocument(value) => ReplyView::StateDocument(
                crate::flow::result_view(*value),
            ),
            Reply::Saved(value) => ReplyView::Saved(crate::flow::result_view(*value)),
            Reply::Written(value) => ReplyView::Written(crate::flow::result_view(*value)),
            Reply::Settings(value) => ReplyView::Settings(crate::flow::result_view(*value)),
            Reply::Stored(value) => ReplyView::Stored(crate::flow::result_view(*value)),
            Reply::Removed(value) => ReplyView::Removed(crate::flow::result_view(*value)),
            Reply::Edited(value) => ReplyView::Edited(crate::flow::result_view(*value)),
        }
    }
}

/// The message that stands for a reply which does not fit its request.
pub const UNEXPECTED_REPLY: &'static str = "the reply does not fit the request";

/// How the command that a reply tells of ended.
pub open spec fn command_result(reply: ReplyView) -> CommandResultView {
    match reply {
        ReplyView::Command(result) => result,
        _ => CommandResultView::Failed(UNEXPECTED_REPLY@),
    }
}

impl Reply {
    /// How the command that the reply tells of ended.
    pub fn command_result(&self) -> (result: CommandResult)
        ensures
            result.deep_view() == command_result(self.deep_view()),
    {
        match self {
            Reply::Command(result) => result.clone(),
            _ => CommandResult::Failed(UNEXPECTED_REPLY.to_owned()),
        }
    }
}

/// The canonical path that a reply tells of.
pub open spec fn canonical_path(reply: ReplyView) -> Result<Seq<u8>, PathFailureView> {
    match reply {
        ReplyView::Canonical(result) => result,
        _ => Err(PathFailureView { kind: PathFailureKind::Other, message: UNEXPECTED_REPLY@ }),
    }
}

/// How the command that lists current directories ended, as a reply tells it.
pub open spec fn current_directories(reply: ReplyView) -> Option<CommandResultView> {
    match reply {
        ReplyView::CurrentDirectories(listing) => listing,
        _ => Some(CommandResultView::Failed(UNEXPECTED_REPLY@)),
    }
}

/// The rows of a removal document, as a reply tells them.
pub open spec fn removal_rows(reply: ReplyView) -> Result<Seq<RemovalRowView>, Seq<char>> {
    match reply {
        ReplyView::Removal(result) => result,
        _ => Err(UNEXPECTED_REPLY@),
    }
}

/// The list of worktrees that a reply tells of.
pub open spec fn list_envelope(reply: ReplyView) -> Result<ListEnvelopeView, Seq<char>> {
    match reply {
        ReplyView::List(result) => result,
        _ => Err(UNEXPECTED_REPLY@),
    }
}

impl Reply {
    /// The canonical path that the reply tells of.
    pub fn canonical_path(&self) -> (path: Result<FilePath, PathFailure>)
        ensures
            crate::flow::result_view(path) == canonical_path(self.deep_view()),
    {
        match self {
            Reply::Canonical(Ok(path)) => Ok(path.clone()),
            Reply::Canonical(Err(failure)) => Err(failure.clone()),
            _ => Err(
                PathFailure { kind: PathFailureKind::Other, message: UNEXPECTED_REPLY.to_owned() },
            ),
        }
    }

    /// How the command that lists current directories ended.
    pub fn current_directories(&self) -> (listing: Option<CommandResult>)
        ensures
            listing.deep_view() == current_directories(self.deep_view()),
    {
        match self {
            Reply::CurrentDirectories(None) => None,
            Reply::CurrentDirectories(Some(result)) => Some(result.clone()),
            _ => Some(CommandResult::Failed(UNEXPECTED_REPLY.to_owned())),
        }
    }
}

/// Whether a command ended by itself and reported success.
pub open spec fn succeeded(code: Option<i32>) -> bool {
    code == Some(0i32)
}

/// Whether a command ended by itself and reported success.
pub fn is_success(code: Option<i32>) -> (success: bool)
    ensures
        success == succeeded(code),
{
    match code {
        Some(code) => code == 0,
        None => false,
    }
}

/// The variables that keep Git from taking optional locks, and on request from prompting.
pub open spec fn git_environment(prompt: bool) -> Seq<(Seq<char>, Seq<char>)> {
    if prompt {
        seq![("GIT_OPTIONAL_LOCKS"@, "0"@)]
    } else {
        seq![("GIT_OPTIONAL_LOCKS"@, "0"@), ("GIT_TERMINAL_PROMPT"@, "0"@)]
    }
}

/// The variables that would lead Git to another repository.
pub open spec fn git_removed() -> Seq<Seq<char>> {
    seq!["GIT_DIR"@, "GIT_WORK_TREE"@]
}

/// A command that sees Git's own surroundings and nothing that was set for another repository.
pub open spec fn git_command(
    program: Seq<char>,
    directory: Option<Seq<u8>>,
    arguments: Seq<Seq<char>>,
    prompt: bool,
    timeout: Option<u64>,
) -> CommandLineView {
    CommandLineView {
        program,
        directory,
        arguments,
        environment: git_environment(prompt),
        removed: git_removed(),
        timeout,
    }
}

/// A command that sees Git's own surroundings and nothing that was set for another repository.
pub fn new_git_command(
    program: &str,
    directory: Option<FilePath>,
    arguments: Vec<String>,
    prompt: bool,
    timeout: Option<u64>,
) -> (command: CommandLine)
    ensures
        command.deep_view() == git_command(
            program@,
            directory.deep_view(),
            arguments.deep_view(),
            prompt,
            timeout,
        ),
{
    let mut environment: Vec<(String, String)> = Vec::new();
    assert(environment.deep_view() =~= Seq::empty());
    text::push_pair(&mut environment, "GIT_OPTIONAL_LOCKS", "0");
    if !prompt {
        text::push_pair(&mut environment, "GIT_TERMINAL_PROMPT", "0");
    }
    let mut removed: Vec<String> = new_texts();
    text::push_text(&mut removed, "GIT_DIR");
    text::push_text(&mut removed, "GIT_WORK_TREE");
    assert(environment.deep_view() =~= git_environment(prompt));
    assert(removed.deep_view() =~= git_removed());
    CommandLine { program: program.to_owned(), directory, arguments, environment, removed, timeout }
}

/// A command that runs in the environment of this process.
pub open spec fn plain_command(
    program: Seq<char>,
    arguments: Seq<Seq<char>>,
    timeout: u64,
) -> CommandLineView {
    CommandLineView {
        program,
        directory: None,
        arguments,
        environment: Seq::empty(),
        removed: Seq::empty(),
        timeout: Some(timeout),
    }
}

/// A command that runs in the environment of this process.
pub fn new_plain_command(
    program: &str,
    arguments: Vec<String>,
    timeout: u64,
) -> (command: CommandLine)
    ensures
        command.deep_view() == plain_command(program@, arguments.deep_view(), timeout),
{
    let environment: Vec<(String, String)> = Vec::new();
    assert(environment.deep_view() =~= Seq::empty());
    CommandLine {
        program: program.to_owned(),
        directory: None,
        arguments,
        environment,
        removed: new_texts(),
        timeout: Some(timeout),
    }
}

/// No texts.
pub fn new_texts() -> (texts: Vec<String>)
    ensures
        texts.deep_view() == Seq::<Seq<char>>::empty(),
{
    let texts: Vec<String> = Vec::new();
    assert(texts.deep_view() =~= Seq::empty());
    texts
}

/// Copies of two texts.
pub fn texts2(first: &str, second: &str) -> (texts: Vec<String>)
    ensures
        texts.deep_view() == seq![first@, second@],
{
    let mut texts = new_texts();
    text::push_text(&mut texts, first);
    text::push_text(&mut texts, second);
    texts
}

/// Copies of four texts.
pub fn texts4(first: &str, second: &str, third: &str, fourth: &str) -> (texts: Vec<String>)
    ensures
        texts.deep_view() == seq![first@, second@, third@, fourth@],
{
    let mut texts = texts2(first, second);
    text::push_text(&mut texts, third);
    text::push_text(&mut texts, fourth);
    texts
}

} // verus!
