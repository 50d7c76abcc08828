//! Why scheduling commands fail.
use crate::discovery::Discovery;
use crate::filepath::{FilePath, ShownPath, ShownPathView};
use crate::text;
use vstd::prelude::*;

verus! {

/// Why a scheduling command failed.
#[derive(Debug, PartialEq, Eq)]
pub enum ScheduleError {
    UnsupportedPlatform(String),
    MissingHome,
    RelativeXdgPath { variable: String, value: ShownPath },
    ReadSettings { path: FilePath, source: String },
    InvalidSettings { path: FilePath, message: String },
    ReadLaunchAgent { path: FilePath, source: String },
    Write { path: FilePath, source: String },
    MissingExecutable { name: String },
    Discovery(String),
    CredentialPreflight { repository: FilePath, message: String },
    DegradedPreflight,
    MissingSshAgent,
    InvalidSshAgent(ShownPath),
    EmptySshAgent,
    SshAgent(String),
    TimedOut(String),
    Spawn { program: String, source: String },
    Launchctl { action: String, message: String },
    UserId(String),
    NotInstalled,
    MissingEditor,
    EditorFailed { editor: String, status: String },
    RollbackFailed { cause: String, failures: Vec<String> },
}

/// The content of a [`ScheduleError`].
pub enum ScheduleErrorView {
    UnsupportedPlatform(Seq<char>),
    MissingHome,
    RelativeXdgPath { variable: Seq<char>, value: ShownPathView },
    ReadSettings { path: Seq<u8>, source: Seq<char> },
    InvalidSettings { path: Seq<u8>, message: Seq<char> },
    ReadLaunchAgent { path: Seq<u8>, source: Seq<char> },
    Write { path: Seq<u8>, source: Seq<char> },
    MissingExecutable { name: Seq<char> },
    Discovery(Seq<char>),
    CredentialPreflight { repository: Seq<u8>, message: Seq<char> },
    DegradedPreflight,
    MissingSshAgent,
    InvalidSshAgent(ShownPathView),
    EmptySshAgent,
    SshAgent(Seq<char>),
    TimedOut(Seq<char>),
    Spawn { program: Seq<char>, source: Seq<char> },
    Launchctl { action: Seq<char>, message: Seq<char> },
    UserId(Seq<char>),
    NotInstalled,
    MissingEditor,
    EditorFailed { editor: Seq<char>, status: Seq<char> },
    RollbackFailed { cause: Seq<char>, failures: Seq<Seq<char>> },
}

impl DeepView for ScheduleError {
    type V = ScheduleErrorView;

    open spec fn deep_view(&self) -> ScheduleErrorView {
        match self {
            ScheduleError::UnsupportedPlatform(value) => ScheduleErrorView::UnsupportedPlatform(
                value@,
            ),
            ScheduleError::MissingHome => ScheduleErrorView::MissingHome,
            ScheduleError::RelativeXdgPath {
                variable,
                value,
            } => ScheduleErrorView::RelativeXdgPath {
                variable: variable@,
                value: value.deep_view(),
            },
            ScheduleError::ReadSettings { path, source } => ScheduleErrorView::ReadSettings {
                path: path@,
                source: source@,
            },
            ScheduleError::InvalidSettings { path, message } => ScheduleErrorView::InvalidSettings {
                path: path@,
                message: message@,
            },
            ScheduleError::ReadLaunchAgent { path, source } => ScheduleErrorView::ReadLaunchAgent {
                path: path@,
                source: source@,
            },
            ScheduleError::Write { path, source } => ScheduleErrorView::Write {
                path: path@,
                source: source@,
            },
            ScheduleError::MissingExecutable { name } => ScheduleErrorView::MissingExecutable {
                name: name@,
            },
            ScheduleError::Discovery(value) => ScheduleErrorView::Discovery(value@),
            ScheduleError::CredentialPreflight {
                repository,
                message,
            } => ScheduleErrorView::CredentialPreflight {
                repository: repository@,
                message: message@,
            },
            ScheduleError::DegradedPreflight => ScheduleErrorView::DegradedPreflight,
            ScheduleError::MissingSshAgent => ScheduleErrorView::MissingSshAgent,
            ScheduleError::InvalidSshAgent(value) => ScheduleErrorView::InvalidSshAgent(
                value.deep_view(),
            ),
            ScheduleError::EmptySshAgent => ScheduleErrorView::EmptySshAgent,
            ScheduleError::SshAgent(value) => ScheduleErrorView::SshAgent(value@),
            ScheduleError::TimedOut(value) => ScheduleErrorView::TimedOut(value@),
            ScheduleError::Spawn { program, source } => ScheduleErrorView::Spawn {
                program: program@,
                source: source@,
            },
            ScheduleError::Launchctl { action, message } => ScheduleErrorView::Launchctl {
                action: action@,
                message: message@,
            },
            ScheduleError::UserId(value) => ScheduleErrorView::UserId(value@),
            ScheduleError::NotInstalled => ScheduleErrorView::NotInstalled,
            ScheduleError::MissingEditor => ScheduleErrorView::MissingEditor,
            ScheduleError::EditorFailed { editor, status } => ScheduleErrorView::EditorFailed {
                editor: editor@,
                status: status@,
            },
            ScheduleError::RollbackFailed { cause, failures } => ScheduleErrorView::RollbackFailed {
                cause: cause@,
                failures: failures.deep_view(),
            },
        }
    }
}

/// The message of an error.
pub open spec fn schedule_message(error: ScheduleErrorView) -> Seq<char> {
    match error {
        ScheduleErrorView::UnsupportedPlatform(platform) => "scheduling is unavailable on "@
            + platform + "; scan and prune remain available"@,
        ScheduleErrorView::MissingHome => "HOME is not set; cannot resolve scheduling paths"@,
        ScheduleErrorView::RelativeXdgPath { variable, value } => variable
            + " must be an absolute path, but was "@ + value.shown,
        ScheduleErrorView::ReadSettings { path, source } => "failed to read schedule settings at "@
            + text::lossy_text(path) + ": "@ + source,
        ScheduleErrorView::InvalidSettings { path, message } => "invalid schedule settings at "@
            + text::lossy_text(path) + ": "@ + message,
        ScheduleErrorView::ReadLaunchAgent { path, source } => "failed to read LaunchAgent at "@
            + text::lossy_text(path) + ": "@ + source,
        ScheduleErrorView::Write { path, source } => "failed to write "@ + text::lossy_text(path)
            + ": "@ + source,
        ScheduleErrorView::MissingExecutable { name } => "required executable "@
            + text::quoted_text(name)
            + " was not found in PATH; install it before scheduling Lop"@,
        ScheduleErrorView::Discovery(message) => {
            "cannot schedule Lop because repository discovery failed: "@ + message
        },
        ScheduleErrorView::CredentialPreflight { repository, message } => {
            "noninteractive credential preflight failed for "@ + text::lossy_text(repository)
                + ": "@ + message
        },
        ScheduleErrorView::DegradedPreflight => {
            "repository preflight is degraded; review the warnings and pass --allow-degraded-preflight to schedule prune mode"@
        },
        ScheduleErrorView::MissingSshAgent => {
            "SSH_AUTH_SOCK is required for SSH remotes but is not set"@
        },
        ScheduleErrorView::InvalidSshAgent(path) => "SSH_AUTH_SOCK "@ + path.shown
            + " is not a usable Unix socket"@,
        ScheduleErrorView::EmptySshAgent => {
            "the SSH agent has no usable identities; run ssh-add before installing the schedule"@
        },
        ScheduleErrorView::SshAgent(message) => "failed to inspect the SSH agent: "@ + message,
        ScheduleErrorView::TimedOut(command) => "scheduled command timed out: "@ + command,
        ScheduleErrorView::Spawn { program, source } => "failed to run "@ + program + ": "@
            + source,
        ScheduleErrorView::Launchctl { action, message } => "launchctl "@ + action + " failed: "@
            + message,
        ScheduleErrorView::UserId(message) => "failed to determine the current user id: "@
            + message,
        ScheduleErrorView::NotInstalled => {
            "schedule is not installed; run `lop schedule install` first"@
        },
        ScheduleErrorView::MissingEditor => {
            "neither VISUAL nor EDITOR names an editor; set one before running schedule edit"@
        },
        ScheduleErrorView::EditorFailed { editor, status } => "editor "@ + text::quoted_text(editor)
            + " failed with status "@ + status,
        ScheduleErrorView::RollbackFailed { cause, failures } => cause
            + "; restoring the previous schedule failed: "@ + text::joined_text(failures, "; "@),
    }
}

impl ScheduleError {
    /// The message of the error.
    pub fn message(&self) -> (message: String)
        ensures
            message@ == schedule_message(self.deep_view()),
    {
        match self {
            ScheduleError::UnsupportedPlatform(platform) => text::concat3(
                "scheduling is unavailable on ",
                platform.as_str(),
                "; scan and prune remain available",
            ),
            ScheduleError::MissingHome => {
                "HOME is not set; cannot resolve scheduling paths".to_owned()
            },
            ScheduleError::RelativeXdgPath { variable, value } => text::concat3(
                variable.as_str(),
                " must be an absolute path, but was ",
                value.shown.as_str(),
            ),
            ScheduleError::ReadSettings { path, source } => {
                let shown = path.display();
                text::concat4(
                    "failed to read schedule settings at ",
                    shown.as_str(),
                    ": ",
                    source.as_str(),
                )
            },
            ScheduleError::InvalidSettings { path, message } => {
                let shown = path.display();
                text::concat4(
                    "invalid schedule settings at ",
                    shown.as_str(),
                    ": ",
                    message.as_str(),
                )
            },
            ScheduleError::ReadLaunchAgent { path, source } => {
                let shown = path.display();
                text::concat4(
                    "failed to read LaunchAgent at ",
                    shown.as_str(),
                    ": ",
                    source.as_str(),
                )
            },
            ScheduleError::Write { path, source } => {
                let shown = path.display();
                text::concat4("failed to write ", shown.as_str(), ": ", source.as_str())
            },
            ScheduleError::MissingExecutable { name } => {
                let shown = text::quoted(name.as_str());
                text::concat3(
                    "required executable ",
                    shown.as_str(),
                    " was not found in PATH; install it before scheduling Lop",
                )
            },
            ScheduleError::Discovery(message) => text::concat2(
                "cannot schedule Lop because repository discovery failed: ",
                message.as_str(),
            ),
            ScheduleError::CredentialPreflight { repository, message } => {
                let shown = repository.display();
                text::concat4(
                    "noninteractive credential preflight failed for ",
                    shown.as_str(),
                    ": ",
                    message.as_str(),
                )
            },
            ScheduleError::DegradedPreflight => {
                "repository preflight is degraded; review the warnings and pass --allow-degraded-preflight to schedule prune mode".to_owned()
            },
            ScheduleError::MissingSshAgent => {
                "SSH_AUTH_SOCK is required for SSH remotes but is not set".to_owned()
            },
            ScheduleError::InvalidSshAgent(path) => text::concat3(
                "SSH_AUTH_SOCK ",
                path.shown.as_str(),
                " is not a usable Unix socket",
            ),
            ScheduleError::EmptySshAgent => {
                "the SSH agent has no usable identities; run ssh-add before installing the schedule".to_owned()
            },
            ScheduleError::SshAgent(message) => text::concat2(
                "failed to inspect the SSH agent: ",
                message.as_str(),
            ),
            ScheduleError::TimedOut(command) => text::concat2(
                "scheduled command timed out: ",
                command.as_str(),
            ),
            ScheduleError::Spawn { program, source } => text::concat4(
                "failed to run ",
                program.as_str(),
                ": ",
                source.as_str(),
            ),
            ScheduleError::Launchctl { action, message } => text::concat4(
                "launchctl ",
                action.as_str(),
                " failed: ",
                message.as_str(),
            ),
            ScheduleError::UserId(message) => text::concat2(
                "failed to determine the current user id: ",
                message.as_str(),
            ),
            ScheduleError::NotInstalled => {
                "schedule is not installed; run `lop schedule install` first".to_owned()
            },
            ScheduleError::MissingEditor => {
                "neither VISUAL nor EDITOR names an editor; set one before running schedule edit".to_owned()
            },
            ScheduleError::EditorFailed { editor, status } => {
                let shown = text::quoted(editor.as_str());
                text::concat4("editor ", shown.as_str(), " failed with status ", status.as_str())
            },
            ScheduleError::RollbackFailed { cause, failures } => {
                let shown = text::join_texts(failures, "; ");
                text::concat3(
                    cause.as_str(),
                    "; restoring the previous schedule failed: ",
                    shown.as_str(),
                )
            },
        }
    }
}

} // verus!
