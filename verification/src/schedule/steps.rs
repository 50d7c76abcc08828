//! The single steps of scheduling commands: commands, files, settings and lines.
use crate::command;
use crate::command::SettingsFailureView;
use crate::command::{CommandResult, CommandResultView, PathFailureKind, ProgramLine};
use crate::command::{ProgramLineView, Reply, ReplyView, Request, RequestView, SettingsFailure};
use crate::filepath;
use crate::filepath::FilePath;
use crate::flow;
use crate::flow::{Flow, Step};
use crate::launch_agent;
use crate::launch_agent::ScheduleSettings;
use crate::schedule::error::{ScheduleError, ScheduleErrorView};
use crate::text;
use vstd::prelude::*;
use vstd::utf8::*;

verus! {

/// How long a command may run, in seconds.
pub const COMMAND_TIMEOUT: u64 = 60;

/// How long a command of the service manager may run, in seconds.
pub const LAUNCHCTL_TIMEOUT: u64 = 15;

/// What separates the directories of a search path.
pub const COLON: u8 = 58;

/// The permissions of the settings: only their owner may read them.
pub const SETTINGS_MODE: u32 = 0o600;

/// The permissions of a LaunchAgent.
pub const LAUNCH_AGENT_MODE: u32 = 0o644;

/// The diagnostic output of a command as one message.
pub open spec fn stderr_text(stderr: Seq<u8>) -> Seq<char> {
    let message = text::trimmed(text::lossy_text(stderr));
    if message.len() == 0 {
        "command returned a nonzero status without an error message"@
    } else {
        message
    }
}

pub(crate) fn stderr_message(stderr: &Vec<u8>) -> (message: String)
    ensures
        message@ == stderr_text(stderr@),
{
    let message = text::trim(text::lossy(stderr.as_slice()).as_str());
    if text::is_blank(message.as_str()) {
        "command returned a nonzero status without an error message".to_owned()
    } else {
        message
    }
}

/// What a command that ended by itself left behind.
#[derive(Debug, PartialEq, Eq)]
pub struct CommandOutput {
    pub code: Option<i32>,
    pub stdout: Vec<u8>,
    pub stderr: Vec<u8>,
}

/// The content of a [`CommandOutput`].
pub struct CommandOutputView {
    pub code: Option<i32>,
    pub stdout: Seq<u8>,
    pub stderr: Seq<u8>,
}

impl DeepView for CommandOutput {
    type V = CommandOutputView;

    open spec fn deep_view(&self) -> CommandOutputView {
        CommandOutputView {
            code: self.code,
            stdout: self.stdout@,
            stderr: self.stderr@,
        }
    }
}

/// A command that sees Git's own surroundings, with more variables set.
pub open spec fn program_line(
    program: Seq<u8>,
    arguments: Seq<Seq<char>>,
    environment: Seq<(Seq<char>, Seq<char>)>,
    timeout: u64,
) -> ProgramLineView {
    ProgramLineView {
        program,
        arguments,
        environment: seq![("GIT_OPTIONAL_LOCKS"@, "0"@)] + environment,
        removed: command::git_removed(),
        timeout,
    }
}

/// What a reply tells of a command that was run to its end.
pub open spec fn output_result(line: ProgramLineView, reply: ReplyView) -> Result<
    CommandOutputView,
    ScheduleErrorView,
> {
    match command::command_result(reply) {
        CommandResultView::Failed(source) => Err(
            ScheduleErrorView::Spawn { program: text::lossy_text(line.program), source },
        ),
        CommandResultView::TimedOut => Err(
            ScheduleErrorView::TimedOut(
                text::lossy_text(line.program) + " "@ + text::joined_text(line.arguments, " "@),
            ),
        ),
        CommandResultView::Exited { code, stdout, stderr } => Ok(
            CommandOutputView { code, stdout, stderr },
        ),
    }
}

/// The running of a command to its end. It is an error where it cannot be run, or runs too long.
pub open spec fn output_flow(line: ProgramLineView, replies: Seq<ReplyView>, at: int) -> Flow<
    Result<CommandOutputView, ScheduleErrorView>,
> {
    if at >= replies.len() {
        Flow::Ask(RequestView::RunProgram(line))
    } else {
        Flow::Done(output_result(line, replies[at]), at + 1)
    }
}

pub(crate) fn new_program_line(
    program: &FilePath,
    arguments: Vec<String>,
    environment: &Vec<(String, String)>,
    timeout: u64,
) -> (line: ProgramLine)
    ensures
        line.deep_view() == program_line(
            program@,
            arguments.deep_view(),
            environment.deep_view(),
            timeout,
        ),
{
    let ghost more = environment.deep_view();
    let mut variables: Vec<(String, String)> = Vec::new();
    assert(variables.deep_view() =~= Seq::empty());
    text::push_pair(&mut variables, "GIT_OPTIONAL_LOCKS", "0");
    let ghost first = variables.deep_view();
    assert(first =~= seq![("GIT_OPTIONAL_LOCKS"@, "0"@)]);
    let mut i: usize = 0;
    assert(first + more.take(0) =~= first);
    while i < environment.len()
        invariant
            i <= environment.len(),
            more == environment.deep_view(),
            variables.deep_view() == first + more.take(i as int),
        decreases environment.len() - i,
    {
        let pair = &environment[i];
        assert(more[i as int] == (pair.0@, pair.1@));
        text::push_pair(&mut variables, pair.0.as_str(), pair.1.as_str());
        assert(first + more.take(i + 1) =~= (first + more.take(i as int)).push(more[i as int]));
        i += 1;
    }
    assert(more.take(i as int) =~= more);
    let mut removed: Vec<String> = command::new_texts();
    text::push_text(&mut removed, "GIT_DIR");
    text::push_text(&mut removed, "GIT_WORK_TREE");
    assert(removed.deep_view() =~= command::git_removed());
    ProgramLine { program: program.clone(), arguments, environment: variables, removed, timeout }
}

/// Runs a command to its end. It is an error where it cannot be run, or runs too long.
pub fn command_output(line: ProgramLine, replies: &Vec<Reply>, at: usize) -> (step: Step<
    Result<CommandOutput, ScheduleError>,
>)
    ensures
        flow::step_view(step) == output_flow(line.deep_view(), replies.deep_view(), at as int),
{
    if at >= replies.len() {
        return Step::Ask(Request::RunProgram(line));
    }
    assert(replies.deep_view()[at as int] == replies[at as int].deep_view());
    let result = match replies[at].command_result() {
        CommandResult::Failed(source) => Err(
            ScheduleError::Spawn { program: line.program.display(), source },
        ),
        CommandResult::TimedOut => {
            let shown = line.program.display();
            let arguments = text::join_texts(&line.arguments, " ");
            Err(ScheduleError::TimedOut(text::concat3(shown.as_str(), " ", arguments.as_str())))
        },
        CommandResult::Exited { code, stdout, stderr } => Ok(
            CommandOutput { code, stdout, stderr },
        ),
    };
    Step::Done(result, at + 1)
}

pub(crate) fn no_variables() -> (variables: Vec<(String, String)>)
    ensures
        variables.deep_view() == Seq::<(Seq<char>, Seq<char>)>::empty(),
{
    let variables: Vec<(String, String)> = Vec::new();
    assert(variables.deep_view() =~= Seq::empty());
    variables
}

/// The finding out whether there is what a request asks for.
pub open spec fn found_flow(request: RequestView, replies: Seq<ReplyView>, at: int) -> Flow<bool> {
    if at >= replies.len() {
        Flow::Ask(request)
    } else {
        Flow::Done(replies[at] == ReplyView::Exists(true), at + 1)
    }
}

pub(crate) fn is_found(request: Request, replies: &Vec<Reply>, at: usize) -> (step: Step<bool>)
    ensures
        step.deep_view() == found_flow(request.deep_view(), replies.deep_view(), at as int),
{
    if at >= replies.len() {
        return Step::Ask(request);
    }
    assert(replies.deep_view()[at as int] == replies[at as int].deep_view());
    let found = match &replies[at] {
        Reply::Exists(found) => *found,
        _ => false,
    };
    Step::Done(found, at + 1)
}

/// The reading of a file: its contents, or nothing where there is none.
pub open spec fn read_flow(path: Seq<u8>, replies: Seq<ReplyView>, at: int) -> Flow<
    Result<Option<Seq<u8>>, Seq<char>>,
> {
    if at >= replies.len() {
        Flow::Ask(RequestView::ReadFile(path))
    } else {
        Flow::Done(
            match replies[at] {
                ReplyView::File(result) => result,
                _ => Err(command::UNEXPECTED_REPLY@),
            },
            at + 1,
        )
    }
}

pub(crate) fn read_file(path: &FilePath, replies: &Vec<Reply>, at: usize) -> (step: Step<
    Result<Option<Vec<u8>>, String>,
>)
    ensures
        flow::step_view(step) == read_flow(path@, replies.deep_view(), at as int),
{
    if at >= replies.len() {
        return Step::Ask(Request::ReadFile(path.clone()));
    }
    assert(replies.deep_view()[at as int] == replies[at as int].deep_view());
    let result = match &replies[at] {
        Reply::File(Ok(None)) => Ok(None),
        Reply::File(Ok(Some(contents))) => {
            let copy = text::clone_bytes(contents);
            assert(copy.deep_view() =~= contents.deep_view());
            Ok(Some(copy))
        },
        Reply::File(Err(source)) => Err(source.clone()),
        _ => Err(command::UNEXPECTED_REPLY.to_owned()),
    };
    Step::Done(result, at + 1)
}

/// The writing of a file as a whole, in a directory that is made where it is missing.
pub open spec fn write_flow(
    path: Seq<u8>,
    contents: Seq<u8>,
    mode: u32,
    process: u64,
    replies: Seq<ReplyView>,
    at: int,
) -> Flow<Result<(), ScheduleErrorView>> {
    match filepath::parent_path(path) {
        None => Flow::Done(
            Err(ScheduleErrorView::Write { path, source: "path has no parent directory"@ }),
            at,
        ),
        Some(parent) => match stored_flow(
            RequestView::CreateDirectories(parent),
            parent,
            replies,
            at,
        ) {
            Flow::Ask(request) => Flow::Ask(request),
            Flow::Done(Err(error), next) => Flow::Done(Err(error), next),
            Flow::Done(Ok(_), next) => stored_flow(
                RequestView::WriteFile {
                    path,
                    temporary: temporary_path(path, parent, process),
                    contents,
                    mode,
                },
                path,
                replies,
                next,
            ),
        },
    }
}

/// The file by way of which the one at `path` is replaced.
pub open spec fn temporary_path(path: Seq<u8>, parent: Seq<u8>, process: u64) -> Seq<u8> {
    let name = match filepath::file_name(path) {
        Some(name) => name,
        None => Seq::empty(),
    };
    filepath::joined(
        parent,
        encode_utf8(
            "."@ + text::lossy_text(name) + ".tmp-"@ + text::decimal_text(process as nat),
        ),
    )
}

/// A request to store something at `path`.
pub open spec fn stored_flow(
    request: RequestView,
    path: Seq<u8>,
    replies: Seq<ReplyView>,
    at: int,
) -> Flow<Result<(), ScheduleErrorView>> {
    if at >= replies.len() {
        Flow::Ask(request)
    } else {
        Flow::Done(
            match replies[at] {
                ReplyView::Stored(Ok(_)) => Ok(()),
                ReplyView::Stored(Err(failure)) => Err(
                    ScheduleErrorView::Write { path: failure.path, source: failure.message },
                ),
                _ => Err(ScheduleErrorView::Write { path, source: command::UNEXPECTED_REPLY@ }),
            },
            at + 1,
        )
    }
}

pub(crate) fn store(
    request: Request,
    path: &FilePath,
    replies: &Vec<Reply>,
    at: usize,
) -> (step: Step<
    Result<(), ScheduleError>,
>)
    ensures
        flow::step_view(step) == stored_flow(
            request.deep_view(),
            path@,
            replies.deep_view(),
            at as int,
        ),
{
    if at >= replies.len() {
        return Step::Ask(request);
    }
    assert(replies.deep_view()[at as int] == replies[at as int].deep_view());
    let result = match &replies[at] {
        Reply::Stored(Ok(_)) => Ok(()),
        Reply::Stored(Err(failure)) => Err(
            ScheduleError::Write { path: failure.path.clone(), source: failure.message.clone() },
        ),
        _ => Err(
            ScheduleError::Write {
                path: path.clone(),
                source: command::UNEXPECTED_REPLY.to_owned(),
            },
        ),
    };
    Step::Done(result, at + 1)
}

fn new_temporary_path(path: &FilePath, parent: &FilePath, process: u64) -> (temporary: FilePath)
    ensures
        temporary@ == temporary_path(path@, parent@, process),
{
    let name = match path.file_name() {
        Some(name) => {
            assert(name.deep_view() =~= name@);
            text::lossy(name.as_slice())
        },
        None => {
            let nothing: Vec<u8> = Vec::new();
            assert(nothing@ =~= Seq::empty());
            text::lossy(nothing.as_slice())
        },
    };
    let number = text::decimal(process);
    parent.join_text(text::concat4(".", name.as_str(), ".tmp-", number.as_str()).as_str())
}

/// Writes a file as a whole, in a directory that is made where it is missing.
pub fn write_atomic(
    path: &FilePath,
    contents: &Vec<u8>,
    mode: u32,
    process: u64,
    replies: &Vec<Reply>,
    at: usize,
) -> (step: Step<Result<(), ScheduleError>>)
    ensures
        flow::step_view(step) == write_flow(
            path@,
            contents@,
            mode,
            process,
            replies.deep_view(),
            at as int,
        ),
{
    let parent = match path.parent() {
        None => {
            return Step::Done(
                Err(
                    ScheduleError::Write {
                        path: path.clone(),
                        source: "path has no parent directory".to_owned(),
                    },
                ),
                at,
            );
        },
        Some(parent) => parent,
    };
    let next = match store(Request::CreateDirectories(parent.clone()), &parent, replies, at) {
        Step::Ask(request) => return Step::Ask(request),
        Step::Done(Err(error), next) => return Step::Done(Err(error), next),
        Step::Done(Ok(_), next) => next,
    };
    store(
        Request::WriteFile {
            path: path.clone(),
            temporary: new_temporary_path(path, &parent, process),
            contents: text::clone_bytes(contents),
            mode,
        },
        path,
        replies,
        next,
    )
}

/// The removal of a file. It is no error where there is none.
pub open spec fn remove_flow(path: Seq<u8>, replies: Seq<ReplyView>, at: int) -> Flow<
    Result<(), ScheduleErrorView>,
> {
    if at >= replies.len() {
        Flow::Ask(RequestView::RemoveFile(path))
    } else {
        Flow::Done(
            match replies[at] {
                ReplyView::Removed(Ok(_)) => Ok(()),
                ReplyView::Removed(Err(failure)) => if failure.kind == PathFailureKind::NotFound {
                    Ok(())
                } else {
                    Err(ScheduleErrorView::Write { path, source: failure.message })
                },
                _ => Err(ScheduleErrorView::Write { path, source: command::UNEXPECTED_REPLY@ }),
            },
            at + 1,
        )
    }
}

/// Removes a file. It is no error where there is none.
pub fn remove_if_exists(path: &FilePath, replies: &Vec<Reply>, at: usize) -> (step: Step<
    Result<(), ScheduleError>,
>)
    ensures
        flow::step_view(step) == remove_flow(path@, replies.deep_view(), at as int),
{
    if at >= replies.len() {
        return Step::Ask(Request::RemoveFile(path.clone()));
    }
    assert(replies.deep_view()[at as int] == replies[at as int].deep_view());
    let result = match &replies[at] {
        Reply::Removed(Ok(_)) => Ok(()),
        Reply::Removed(Err(failure)) => match failure.kind {
            PathFailureKind::NotFound => Ok(()),
            _ => Err(
                ScheduleError::Write { path: path.clone(), source: failure.message.clone() },
            ),
        },
        _ => Err(
            ScheduleError::Write {
                path: path.clone(),
                source: command::UNEXPECTED_REPLY.to_owned(),
            },
        ),
    };
    Step::Done(result, at + 1)
}

/// The settings that a reply tells of.
pub open spec fn told_settings(path: Seq<u8>, reply: ReplyView) -> Result<
    ScheduleSettings,
    ScheduleErrorView,
> {
    match reply {
        ReplyView::Settings(Ok(settings)) => if launch_agent::settings_valid(settings) {
            Ok(settings)
        } else {
            Err(
                ScheduleErrorView::InvalidSettings {
                    path,
                    message: launch_agent::interval_message(),
                },
            )
        },
        ReplyView::Settings(Err(SettingsFailureView::Read(source))) => Err(
            ScheduleErrorView::ReadSettings { path, source },
        ),
        ReplyView::Settings(Err(SettingsFailureView::Parse(message))) => Err(
            ScheduleErrorView::InvalidSettings { path, message },
        ),
        _ => Err(ScheduleErrorView::ReadSettings { path, source: command::UNEXPECTED_REPLY@ }),
    }
}

/// The reading of settings. It is an error where they cannot be read or cannot be used.
pub open spec fn settings_flow(path: Seq<u8>, replies: Seq<ReplyView>, at: int) -> Flow<
    Result<ScheduleSettings, ScheduleErrorView>,
> {
    if at >= replies.len() {
        Flow::Ask(RequestView::LoadSettings(path))
    } else {
        Flow::Done(told_settings(path, replies[at]), at + 1)
    }
}

/// Reads settings. It is an error where they cannot be read or cannot be used.
pub fn load_settings(path: &FilePath, replies: &Vec<Reply>, at: usize) -> (step: Step<
    Result<ScheduleSettings, ScheduleError>,
>)
    ensures
        flow::step_view(step) == settings_flow(path@, replies.deep_view(), at as int),
{
    if at >= replies.len() {
        return Step::Ask(Request::LoadSettings(path.clone()));
    }
    assert(replies.deep_view()[at as int] == replies[at as int].deep_view());
    let result = match &replies[at] {
        Reply::Settings(Ok(settings)) => match settings.validate() {
            Ok(_) => Ok(*settings),
            Err(message) => Err(ScheduleError::InvalidSettings { path: path.clone(), message }),
        },
        Reply::Settings(Err(SettingsFailure::Read(source))) => Err(
            ScheduleError::ReadSettings { path: path.clone(), source: source.clone() },
        ),
        Reply::Settings(Err(SettingsFailure::Parse(message))) => Err(
            ScheduleError::InvalidSettings { path: path.clone(), message: message.clone() },
        ),
        _ => Err(
            ScheduleError::ReadSettings {
                path: path.clone(),
                source: command::UNEXPECTED_REPLY.to_owned(),
            },
        ),
    };
    Step::Done(result, at + 1)
}

/// The search for a program in directories, from the one number `i` on.
pub open spec fn find_flow(
    name: Seq<char>,
    directories: Seq<Seq<u8>>,
    i: int,
    replies: Seq<ReplyView>,
    at: int,
) -> Flow<Result<Seq<u8>, ScheduleErrorView>>
    decreases directories.len() - i,
{
    if i >= directories.len() {
        Flow::Done(Err(ScheduleErrorView::MissingExecutable { name }), at)
    } else {
        let candidate = filepath::joined(directories[i], encode_utf8(name));
        match found_flow(RequestView::IsExecutable(candidate), replies, at) {
            Flow::Ask(request) => Flow::Ask(request),
            Flow::Done(found, next) => if found {
                Flow::Done(Ok(candidate), next)
            } else {
                find_flow(name, directories, i + 1, replies, next)
            },
        }
    }
}

/// The directories that a search path lists.
pub open spec fn search_directories(search_path: Option<Seq<u8>>) -> Seq<Seq<u8>> {
    match search_path {
        None => Seq::empty(),
        Some(search_path) => text::split_bytes(search_path, COLON, COLON),
    }
}

/// Looks for a program in the directories that the search path lists. The first that holds it
/// counts.
pub fn find_executable(
    name: &str,
    search_path: &Option<FilePath>,
    replies: &Vec<Reply>,
    at: usize,
) -> (step: Step<Result<FilePath, ScheduleError>>)
    ensures
        flow::step_view(step) == find_flow(
            name@,
            search_directories(search_path.deep_view()),
            0,
            replies.deep_view(),
            at as int,
        ),
{
    let directories = match search_path {
        None => {
            return Step::Done(Err(ScheduleError::MissingExecutable { name: name.to_owned() }), at);
        },
        Some(search_path) => text::split_at_bytes(search_path.bytes.as_slice(), COLON, COLON),
    };
    let ghost all = text::contents(directories@);
    let ghost start = at;
    let mut next: usize = at;
    let mut i: usize = 0;
    while i < directories.len()
        invariant
            i <= directories.len(),
            all == text::contents(directories@),
            all == search_directories(search_path.deep_view()),
            find_flow(name@, all, 0, replies.deep_view(), start as int) == find_flow(
                name@,
                all,
                i as int,
                replies.deep_view(),
                next as int,
            ),
            start == at,
        decreases directories.len() - i,
    {
        assert(all[i as int] == directories[i as int]@);
        let directory = FilePath::new(text::clone_bytes(&directories[i]));
        let candidate = directory.join_text(name);
        match is_found(Request::IsExecutable(candidate.clone()), replies, next) {
            Step::Ask(request) => return Step::Ask(request),
            Step::Done(found, after) => {
                if found {
                    return Step::Done(Ok(candidate), after);
                }
                next = after;
            },
        }
        i += 1;
    }
    Step::Done(Err(ScheduleError::MissingExecutable { name: name.to_owned() }), next)
}

/// The request to write a line, to the output or to the warnings.
pub open spec fn line_request(warning: bool, line: Seq<char>) -> RequestView {
    if warning {
        RequestView::Warn(line)
    } else {
        RequestView::Print(line)
    }
}

/// The writing of the lines from the one number `i` on, to the output or to the warnings.
pub open spec fn lines_flow(
    warning: bool,
    lines: Seq<Seq<char>>,
    i: int,
    replies: Seq<ReplyView>,
    at: int,
) -> Flow<Result<(), ScheduleErrorView>>
    decreases lines.len() - i,
{
    if i >= lines.len() {
        Flow::Done(Ok(()), at)
    } else if at >= replies.len() {
        Flow::Ask(line_request(warning, lines[i]))
    } else {
        match replies[at] {
            ReplyView::Written(Ok(_)) => lines_flow(warning, lines, i + 1, replies, at + 1),
            ReplyView::Written(Err(source)) => Flow::Done(
                Err(ScheduleErrorView::Write { path: stream_path(warning), source }),
                at + 1,
            ),
            _ => Flow::Done(
                Err(
                    ScheduleErrorView::Write {
                        path: stream_path(warning),
                        source: command::UNEXPECTED_REPLY@,
                    },
                ),
                at + 1,
            ),
        }
    }
}

/// The name of the output, or of the warnings.
pub open spec fn stream_path(warning: bool) -> Seq<u8> {
    if warning {
        encode_utf8("stderr"@)
    } else {
        encode_utf8("stdout"@)
    }
}

pub(crate) fn write_lines(
    warning: bool,
    lines: &Vec<String>,
    replies: &Vec<Reply>,
    at: usize,
) -> (step: Step<
    Result<(), ScheduleError>,
>)
    ensures
        flow::step_view(step) == lines_flow(
            warning,
            lines.deep_view(),
            0,
            replies.deep_view(),
            at as int,
        ),
{
    let ghost all = lines.deep_view();
    let mut next: usize = at;
    let mut i: usize = 0;
    while i < lines.len()
        invariant
            i <= lines.len(),
            all == lines.deep_view(),
            lines_flow(warning, all, 0, replies.deep_view(), at as int) == lines_flow(
                warning,
                all,
                i as int,
                replies.deep_view(),
                next as int,
            ),
        decreases lines.len() - i,
    {
        assert(all[i as int] == lines[i as int]@);
        if next >= replies.len() {
            return Step::Ask(
                if warning {
                    Request::Warn(lines[i].clone())
                } else {
                    Request::Print(lines[i].clone())
                },
            );
        }
        assert(replies.deep_view()[next as int] == replies[next as int].deep_view());
        let path = if warning {
            FilePath::from_text("stderr")
        } else {
            FilePath::from_text("stdout")
        };
        match &replies[next] {
            Reply::Written(Ok(_)) => {},
            Reply::Written(Err(source)) => {
                return Step::Done(
                    Err(ScheduleError::Write { path, source: source.clone() }),
                    next + 1,
                );
            },
            _ => {
                return Step::Done(
                    Err(
                        ScheduleError::Write {
                            path,
                            source: command::UNEXPECTED_REPLY.to_owned(),
                        },
                    ),
                    next + 1,
                );
            },
        }
        next = next + 1;
        i += 1;
    }
    Step::Done(Ok(()), next)
}

pub(crate) fn write_line(line: String, replies: &Vec<Reply>, at: usize) -> (step: Step<
    Result<(), ScheduleError>,
>)
    ensures
        flow::step_view(step) == lines_flow(
            false,
            seq![line@],
            0,
            replies.deep_view(),
            at as int,
        ),
{
    let mut lines = command::new_texts();
    text::push_text(&mut lines, line.as_str());
    assert(lines.deep_view() =~= seq![line@]);
    write_lines(false, &lines, replies, at)
}

} // verus!
