//! The check that scheduled runs can fetch the repositories.
use crate::command;
use crate::command::{ProgramLine, ProgramLineView, Reply, ReplyView, Request, RequestView};
use crate::discovery::RepositoryView;
use crate::discovery::{Discovery, DiscoveryIssue, DiscoveryIssueView, DiscoveryView, Repository};
use crate::filepath::{FilePath, ShownPath, ShownPathView};
use crate::flow;
use crate::flow::{Flow, Step};
use crate::launch_agent::{ScheduleEnvironment, ScheduleEnvironmentView};
use crate::schedule::error;
use crate::schedule::error::{ScheduleError, ScheduleErrorView};
use crate::schedule::steps;
use crate::schedule::steps::{COMMAND_TIMEOUT, CommandOutput, CommandOutputView};
use crate::text;
use vstd::prelude::*;

verus! {

/// Whether a line in which Git lists a remote names one that is reached by SSH.
pub open spec fn uses_ssh(line: Seq<char>) -> bool {
    match text::second_word(line) {
        None => false,
        Some(url) => {
            ||| "ssh://"@.is_prefix_of(url)
            ||| !text::holds_text(url, "://"@) && url.contains(':') && text::split_text(
                url,
                ':',
            )[0].contains('@')
        },
    }
}

fn holds_char(text: &str, c: char) -> (found: bool)
    ensures
        found == text@.contains(c),
{
    let chars = text::to_chars(text);
    let mut i: usize = 0;
    while i < chars.len()
        invariant
            i <= chars.len(),
            chars@ == text@,
            forall|j: int| 0 <= j < i ==> chars[j] != c,
        decreases chars.len() - i,
    {
        if chars[i] == c {
            assert(text@[i as int] == c);
            return true;
        }
        i += 1;
    }
    false
}

/// Whether a line in which Git lists a remote names one that is reached by SSH.
pub fn remote_uses_ssh(line: &str) -> (result: bool)
    ensures
        result == uses_ssh(line@),
{
    let url = match text::nth_word_1(line) {
        None => return false,
        Some(url) => url,
    };
    if text::starts_with(url.as_str(), "ssh://") {
        return true;
    }
    if text::contains_part(url.as_str(), "://") || !holds_char(url.as_str(), ':') {
        return false;
    }
    let pieces = text::split(url.as_str(), ':');
    proof {
        text::lemma_split_joins(Seq::empty(), ':', url@);
    }
    assert(pieces.deep_view()[0] == pieces[0]@);
    holds_char(pieces[0].as_str(), '@')
}

/// Whether one of the lines names a remote that is reached by SSH.
pub open spec fn any_uses_ssh(lines: Seq<Seq<char>>) -> bool {
    exists|i: int| 0 <= i < lines.len() && uses_ssh(#[trigger] lines[i])
}

fn output_uses_ssh(stdout: &Vec<u8>) -> (result: bool)
    ensures
        result == any_uses_ssh(text::split_text(text::lossy_text(stdout@), '\n')),
{
    let shown = text::lossy(stdout.as_slice());
    let lines = text::split(shown.as_str(), '\n');
    let ghost all = lines.deep_view();
    let mut i: usize = 0;
    while i < lines.len()
        invariant
            i <= lines.len(),
            all == lines.deep_view(),
            all == text::split_text(text::lossy_text(stdout@), '\n'),
            forall|j: int| 0 <= j < i ==> !uses_ssh(#[trigger] all[j]),
        decreases lines.len() - i,
    {
        assert(all[i as int] == lines[i as int]@);
        if remote_uses_ssh(lines[i].as_str()) {
            return true;
        }
        i += 1;
    }
    false
}

/// A repository that could not be fetched.
#[derive(Debug, PartialEq, Eq)]
pub struct PreflightFailure {
    pub repository: FilePath,
    pub message: String,
}

/// The content of a [`PreflightFailure`].
pub struct PreflightFailureView {
    pub repository: Seq<u8>,
    pub message: Seq<char>,
}

impl DeepView for PreflightFailure {
    type V = PreflightFailureView;

    open spec fn deep_view(&self) -> PreflightFailureView {
        PreflightFailureView {
            repository: self.repository@,
            message: self.message@,
        }
    }
}

/// The command that lists the remotes of a repository.
pub open spec fn remotes_line(git: Seq<u8>, repository: Seq<u8>) -> ProgramLineView {
    steps::program_line(
        git,
        seq!["-C"@, text::lossy_text(repository), "remote"@, "-v"@],
        Seq::empty(),
        COMMAND_TIMEOUT,
    )
}

/// The listing of the remotes of the repositories from the one number `i` on: whether one of them
/// is reached by SSH, or one before was.
pub open spec fn remotes_flow(
    git: Seq<u8>,
    repositories: Seq<RepositoryView>,
    i: int,
    ssh: bool,
    replies: Seq<ReplyView>,
    at: int,
) -> Flow<Result<bool, ScheduleErrorView>>
    decreases repositories.len() - i,
{
    if i >= repositories.len() {
        Flow::Done(Ok(ssh), at)
    } else {
        match steps::output_flow(remotes_line(git, repositories[i].path), replies, at) {
            Flow::Ask(request) => Flow::Ask(request),
            Flow::Done(Err(error), next) => Flow::Done(Err(error), next),
            Flow::Done(Ok(output), next) => if command::succeeded(output.code) {
                remotes_flow(
                    git,
                    repositories,
                    i + 1,
                    ssh || any_uses_ssh(text::split_text(text::lossy_text(output.stdout), '\n')),
                    replies,
                    next,
                )
            } else {
                Flow::Done(
                    Err(
                        ScheduleErrorView::CredentialPreflight {
                            repository: repositories[i].path,
                            message: steps::stderr_text(output.stderr),
                        },
                    ),
                    next,
                )
            },
        }
    }
}

fn list_remotes(
    git: &FilePath,
    repositories: &Vec<Repository>,
    replies: &Vec<Reply>,
    at: usize,
) -> (step:
    Step<Result<bool, ScheduleError>>)
    ensures
        flow::step_view(step) == remotes_flow(
            git@,
            repositories.deep_view(),
            0,
            false,
            replies.deep_view(),
            at as int,
        ),
{
    let ghost all = repositories.deep_view();
    let mut ssh = false;
    let mut next: usize = at;
    let mut i: usize = 0;
    while i < repositories.len()
        invariant
            i <= repositories.len(),
            all == repositories.deep_view(),
            remotes_flow(git@, all, 0, false, replies.deep_view(), at as int) == remotes_flow(
                git@,
                all,
                i as int,
                ssh,
                replies.deep_view(),
                next as int,
            ),
        decreases repositories.len() - i,
    {
        assert(all[i as int] == repositories[i as int].deep_view());
        let shown = repositories[i].path.display();
        let arguments = command::texts4("-C", shown.as_str(), "remote", "-v");
        let line = steps::new_program_line(git, arguments, &steps::no_variables(), COMMAND_TIMEOUT);
        match steps::command_output(line, replies, next) {
            Step::Ask(request) => return Step::Ask(request),
            Step::Done(Err(error), after) => return Step::Done(Err(error), after),
            Step::Done(Ok(output), after) => {
                if !command::is_success(output.code) {
                    return Step::Done(
                        Err(
                            ScheduleError::CredentialPreflight {
                                repository: repositories[i].path.clone(),
                                message: steps::stderr_message(&output.stderr),
                            },
                        ),
                        after,
                    );
                }
                if output_uses_ssh(&output.stdout) {
                    ssh = true;
                }
                next = after;
            },
        }
        i += 1;
    }
    Step::Done(Ok(ssh), next)
}

/// The check that there is a socket at `path`.
pub open spec fn socket_flow(path: ShownPathView, replies: Seq<ReplyView>, at: int) -> Flow<
    Result<(), ScheduleErrorView>,
> {
    match steps::found_flow(RequestView::IsSocket(path.path), replies, at) {
        Flow::Ask(request) => Flow::Ask(request),
        Flow::Done(found, next) => Flow::Done(
            if found {
                Ok(())
            } else {
                Err(ScheduleErrorView::InvalidSshAgent(path))
            },
            next,
        ),
    }
}

/// Checks that there is a socket at `path`.
pub fn validate_socket(path: &ShownPath, replies: &Vec<Reply>, at: usize) -> (step: Step<
    Result<(), ScheduleError>,
>)
    ensures
        flow::step_view(step) == socket_flow(path.deep_view(), replies.deep_view(), at as int),
{
    match steps::is_found(Request::IsSocket(path.path.clone()), replies, at) {
        Step::Ask(request) => Step::Ask(request),
        Step::Done(found, next) => Step::Done(
            if found {
                Ok(())
            } else {
                Err(ScheduleError::InvalidSshAgent(path.clone()))
            },
            next,
        ),
    }
}

/// The command that lists the identities of an SSH agent.
pub open spec fn identities_line(ssh_add: Seq<u8>, socket: Seq<u8>) -> ProgramLineView {
    steps::program_line(
        ssh_add,
        seq!["-l"@],
        seq![("SSH_AUTH_SOCK"@, text::lossy_text(socket))],
        COMMAND_TIMEOUT,
    )
}

/// The check that there is an SSH agent which has identities.
pub open spec fn agent_flow(
    socket: Option<ShownPathView>,
    search_path: Option<Seq<u8>>,
    replies: Seq<ReplyView>,
    at: int,
) -> Flow<Result<(), ScheduleErrorView>> {
    match socket {
        None => Flow::Done(Err(ScheduleErrorView::MissingSshAgent), at),
        Some(socket) => match socket_flow(socket, replies, at) {
            Flow::Ask(request) => Flow::Ask(request),
            Flow::Done(Err(error), next) => Flow::Done(Err(error), next),
            Flow::Done(Ok(_), next) => match steps::find_flow(
                "ssh-add"@,
                steps::search_directories(search_path),
                0,
                replies,
                next,
            ) {
                Flow::Ask(request) => Flow::Ask(request),
                Flow::Done(Err(error), next) => Flow::Done(Err(error), next),
                Flow::Done(Ok(ssh_add), next) => match steps::output_flow(
                    identities_line(ssh_add, socket.path),
                    replies,
                    next,
                ) {
                    Flow::Ask(request) => Flow::Ask(request),
                    Flow::Done(Err(error), next) => Flow::Done(Err(error), next),
                    Flow::Done(Ok(output), next) => Flow::Done(
                        if output.code == Some(0i32) {
                            Ok(())
                        } else if output.code == Some(1i32) {
                            Err(ScheduleErrorView::EmptySshAgent)
                        } else {
                            Err(ScheduleErrorView::SshAgent(steps::stderr_text(output.stderr)))
                        },
                        next,
                    ),
                },
            },
        },
    }
}

/// Checks that there is an SSH agent which has identities.
pub fn validate_ssh_agent(
    socket: &Option<ShownPath>,
    search_path: &Option<FilePath>,
    replies: &Vec<Reply>,
    at: usize,
) -> (step: Step<Result<(), ScheduleError>>)
    ensures
        flow::step_view(step) == agent_flow(
            socket.deep_view(),
            search_path.deep_view(),
            replies.deep_view(),
            at as int,
        ),
{
    let socket = match socket {
        None => return Step::Done(Err(ScheduleError::MissingSshAgent), at),
        Some(socket) => socket,
    };
    let next = match validate_socket(socket, replies, at) {
        Step::Ask(request) => return Step::Ask(request),
        Step::Done(Err(error), next) => return Step::Done(Err(error), next),
        Step::Done(Ok(_), next) => next,
    };
    let (ssh_add, next) = match steps::find_executable("ssh-add", search_path, replies, next) {
        Step::Ask(request) => return Step::Ask(request),
        Step::Done(Err(error), next) => return Step::Done(Err(error), next),
        Step::Done(Ok(ssh_add), next) => (ssh_add, next),
    };
    let mut variables = steps::no_variables();
    let shown = socket.path.display();
    text::push_pair(&mut variables, "SSH_AUTH_SOCK", shown.as_str());
    let mut arguments = command::new_texts();
    text::push_text(&mut arguments, "-l");
    let line = steps::new_program_line(&ssh_add, arguments, &variables, COMMAND_TIMEOUT);
    assert(line.deep_view() == identities_line(ssh_add@, socket.path@));
    match steps::command_output(line, replies, next) {
        Step::Ask(request) => Step::Ask(request),
        Step::Done(Err(error), next) => Step::Done(Err(error), next),
        Step::Done(Ok(output), next) => {
            let result = match output.code {
                Some(0) => Ok(()),
                Some(1) => Err(ScheduleError::EmptySshAgent),
                _ => Err(ScheduleError::SshAgent(steps::stderr_message(&output.stderr))),
            };
            Step::Done(result, next)
        },
    }
}

/// The variables that a scheduled fetch sees.
pub open spec fn fetch_variables(environment: ScheduleEnvironmentView) -> Seq<
    (Seq<char>, Seq<char>),
> {
    seq![
        ("PATH"@, environment.programs.path),
        ("GIT_TERMINAL_PROMPT"@, "0"@),
        ("GIT_SSH_COMMAND"@, "/usr/bin/ssh -o BatchMode=yes"@),
    ] + match environment.ssh_auth_sock {
        None => Seq::empty(),
        Some(socket) => seq![("SSH_AUTH_SOCK"@, text::lossy_text(socket.path))],
    }
}

fn new_fetch_variables(environment: &ScheduleEnvironment) -> (variables: Vec<(String, String)>)
    ensures
        variables.deep_view() == fetch_variables(environment.deep_view()),
{
    let mut variables = steps::no_variables();
    text::push_pair(&mut variables, "PATH", environment.programs.path.as_str());
    text::push_pair(&mut variables, "GIT_TERMINAL_PROMPT", "0");
    text::push_pair(&mut variables, "GIT_SSH_COMMAND", "/usr/bin/ssh -o BatchMode=yes");
    if let Some(socket) = &environment.ssh_auth_sock {
        let shown = socket.path.display();
        text::push_pair(&mut variables, "SSH_AUTH_SOCK", shown.as_str());
    }
    assert(variables.deep_view() =~= fetch_variables(environment.deep_view()));
    variables
}

/// The command that tries to fetch a repository, changes nothing and asks nothing.
pub open spec fn trial_line(
    environment: ScheduleEnvironmentView,
    repository: Seq<u8>,
    timeout: u64,
) -> ProgramLineView {
    steps::program_line(
        environment.programs.git,
        seq![
            "-C"@,
            text::lossy_text(repository),
            "fetch"@,
            "--all"@,
            "--prune"@,
            "--dry-run"@,
            "--no-recurse-submodules"@,
        ],
        fetch_variables(environment),
        timeout,
    )
}

fn new_trial_line(
    environment: &ScheduleEnvironment,
    variables: &Vec<(String, String)>,
    repository: &FilePath,
    timeout: u64,
) -> (line: ProgramLine)
    requires
        variables.deep_view() == fetch_variables(environment.deep_view()),
    ensures
        line.deep_view() == trial_line(environment.deep_view(), repository@, timeout),
{
    let shown = repository.display();
    let mut arguments = command::texts4("-C", shown.as_str(), "fetch", "--all");
    text::push_text(&mut arguments, "--prune");
    text::push_text(&mut arguments, "--dry-run");
    text::push_text(&mut arguments, "--no-recurse-submodules");
    assert(arguments.deep_view() =~= seq![
        "-C"@,
        text::lossy_text(repository@),
        "fetch"@,
        "--all"@,
        "--prune"@,
        "--dry-run"@,
        "--no-recurse-submodules"@,
    ]);
    steps::new_program_line(&environment.programs.git, arguments, variables, timeout)
}

/// What an attempt to fetch a repository tells: whether it failed, or why nothing can be told.
pub open spec fn trial_failure(
    repository: Seq<u8>,
    result: Result<CommandOutputView, ScheduleErrorView>,
) -> Result<Option<PreflightFailureView>, ScheduleErrorView> {
    match result {
        Err(ScheduleErrorView::TimedOut(command)) => Ok(
            Some(
                PreflightFailureView {
                    repository,
                    message: error::schedule_message(ScheduleErrorView::TimedOut(command)),
                },
            ),
        ),
        Err(error) => Err(error),
        Ok(output) => if command::succeeded(output.code) {
            Ok(None)
        } else {
            Ok(
                Some(
                    PreflightFailureView {
                        repository,
                        message: "`git fetch --dry-run` failed with prompts disabled: "@
                            + steps::stderr_text(output.stderr),
                    },
                ),
            )
        },
    }
}

fn judge_trial(
    repository: &FilePath,
    result: Result<CommandOutput, ScheduleError>,
) -> (failure: Result<
    Option<PreflightFailure>,
    ScheduleError,
>)
    ensures
        flow::result_view(failure) == trial_failure(repository@, flow::result_view(result)),
{
    match result {
        Err(ScheduleError::TimedOut(command)) => {
            let error = ScheduleError::TimedOut(command);
            Ok(
                Some(
                    PreflightFailure { repository: repository.clone(), message: error.message() },
                ),
            )
        },
        Err(error) => Err(error),
        Ok(output) => {
            if command::is_success(output.code) {
                return Ok(None);
            }
            let diagnostic = steps::stderr_message(&output.stderr);
            Ok(
                Some(
                    PreflightFailure {
                        repository: repository.clone(),
                        message: text::concat2(
                            "`git fetch --dry-run` failed with prompts disabled: ",
                            diagnostic.as_str(),
                        ),
                    },
                ),
            )
        },
    }
}

/// The attempts to fetch the repositories from the one number `i` on: the failures, behind
/// `failures`.
pub open spec fn trials_flow(
    environment: ScheduleEnvironmentView,
    timeout: u64,
    repositories: Seq<RepositoryView>,
    i: int,
    failures: Seq<PreflightFailureView>,
    replies: Seq<ReplyView>,
    at: int,
) -> Flow<Result<Seq<PreflightFailureView>, ScheduleErrorView>>
    decreases repositories.len() - i,
{
    if i >= repositories.len() {
        Flow::Done(Ok(failures), at)
    } else {
        match steps::output_flow(
            trial_line(environment, repositories[i].path, timeout),
            replies,
            at,
        ) {
            Flow::Ask(request) => Flow::Ask(request),
            Flow::Done(result, next) => match trial_failure(repositories[i].path, result) {
                Err(error) => Flow::Done(Err(error), next),
                Ok(None) => trials_flow(
                    environment,
                    timeout,
                    repositories,
                    i + 1,
                    failures,
                    replies,
                    next,
                ),
                Ok(Some(failure)) => trials_flow(
                    environment,
                    timeout,
                    repositories,
                    i + 1,
                    failures.push(failure),
                    replies,
                    next,
                ),
            },
        }
    }
}

fn try_fetches(
    environment: &ScheduleEnvironment,
    timeout: u64,
    repositories: &Vec<Repository>,
    replies: &Vec<Reply>,
    at: usize,
) -> (step: Step<Result<Vec<PreflightFailure>, ScheduleError>>)
    ensures
        flow::step_view(step) == trials_flow(
            environment.deep_view(),
            timeout,
            repositories.deep_view(),
            0,
            Seq::empty(),
            replies.deep_view(),
            at as int,
        ),
{
    let ghost all = repositories.deep_view();
    let variables = new_fetch_variables(environment);
    let mut failures: Vec<PreflightFailure> = Vec::new();
    assert(failures.deep_view() =~= Seq::empty());
    let mut next: usize = at;
    let mut i: usize = 0;
    while i < repositories.len()
        invariant
            i <= repositories.len(),
            all == repositories.deep_view(),
            variables.deep_view() == fetch_variables(environment.deep_view()),
            trials_flow(
                environment.deep_view(),
                timeout,
                all,
                0,
                Seq::empty(),
                replies.deep_view(),
                at as int,
            ) == trials_flow(
                environment.deep_view(),
                timeout,
                all,
                i as int,
                failures.deep_view(),
                replies.deep_view(),
                next as int,
            ),
        decreases repositories.len() - i,
    {
        let ghost before = failures.deep_view();
        assert(all[i as int] == repositories[i as int].deep_view());
        let repository = &repositories[i].path;
        let line = new_trial_line(environment, &variables, repository, timeout);
        match steps::command_output(line, replies, next) {
            Step::Ask(request) => return Step::Ask(request),
            Step::Done(result, after) => {
                match judge_trial(repository, result) {
                    Err(error) => return Step::Done(Err(error), after),
                    Ok(None) => {},
                    Ok(Some(failure)) => {
                        let ghost added = failure.deep_view();
                        failures.push(failure);
                        assert(failures.deep_view() =~= before.push(added));
                    },
                }
                next = after;
            },
        }
        i += 1;
    }
    Step::Done(Ok(failures), next)
}

/// The problems of a search, each with its path.
pub open spec fn issue_texts(issues: Seq<DiscoveryIssueView>) -> Seq<Seq<char>> {
    Seq::new(
        issues.len(),
        |i: int| text::lossy_text(issues[i].path) + ": "@ + issues[i].message,
    )
}

fn shown_issues(issues: &Vec<DiscoveryIssue>) -> (shown: String)
    ensures
        shown@ == text::joined_text(issue_texts(issues.deep_view()), "; "@),
{
    let ghost all = issues.deep_view();
    let mut texts = command::new_texts();
    let mut i: usize = 0;
    assert(issue_texts(all).take(0) =~= Seq::empty());
    while i < issues.len()
        invariant
            i <= issues.len(),
            all == issues.deep_view(),
            texts.deep_view() == issue_texts(all).take(i as int),
        decreases issues.len() - i,
    {
        assert(all[i as int] == issues[i as int].deep_view());
        let path = issues[i].path.display();
        let line = text::concat3(path.as_str(), ": ", issues[i].message.as_str());
        text::push_text(&mut texts, line.as_str());
        assert(issue_texts(all).take(i + 1) =~= issue_texts(all).take(i as int).push(
            issue_texts(all)[i as int],
        ));
        i += 1;
    }
    assert(issue_texts(all).take(i as int) =~= issue_texts(all));
    text::join_texts(&texts, "; ")
}

/// The check of the SSH agent: it has to work where a remote needs it; its socket has to be one
/// in any case.
pub open spec fn credentials_flow(
    environment: ScheduleEnvironmentView,
    ssh: bool,
    search_path: Option<Seq<u8>>,
    replies: Seq<ReplyView>,
    at: int,
) -> Flow<Result<(), ScheduleErrorView>> {
    if ssh {
        agent_flow(environment.ssh_auth_sock, search_path, replies, at)
    } else {
        match environment.ssh_auth_sock {
            None => Flow::Done(Ok(()), at),
            Some(socket) => socket_flow(socket, replies, at),
        }
    }
}

/// The check that scheduled runs can fetch all repositories: the repositories that cannot be
/// fetched. It is an error where the search for repositories had problems, remotes cannot be
/// listed, or the SSH agent cannot be used.
pub open spec fn preflight_flow(
    environment: ScheduleEnvironmentView,
    timeout: u64,
    search_path: Option<Seq<u8>>,
    found: DiscoveryView,
    replies: Seq<ReplyView>,
    at: int,
) -> Flow<Result<Seq<PreflightFailureView>, ScheduleErrorView>> {
    if found.issues.len() > 0 {
        Flow::Done(
            Err(
                ScheduleErrorView::Discovery(
                    text::joined_text(issue_texts(found.issues), "; "@),
                ),
            ),
            at,
        )
    } else {
        match remotes_flow(
            environment.programs.git,
            found.repositories,
            0,
            false,
            replies,
            at,
        ) {
            Flow::Ask(request) => Flow::Ask(request),
            Flow::Done(Err(error), next) => Flow::Done(Err(error), next),
            Flow::Done(Ok(ssh), next) => match credentials_flow(
                environment,
                ssh,
                search_path,
                replies,
                next,
            ) {
                Flow::Ask(request) => Flow::Ask(request),
                Flow::Done(Err(error), next) => Flow::Done(Err(error), next),
                Flow::Done(Ok(_), next) => trials_flow(
                    environment,
                    timeout,
                    found.repositories,
                    0,
                    Seq::empty(),
                    replies,
                    next,
                ),
            },
        }
    }
}

/// Checks that scheduled runs can fetch all repositories.
pub fn preflight_credentials(
    environment: &ScheduleEnvironment,
    timeout: u64,
    search_path: &Option<FilePath>,
    found: &Discovery,
    replies: &Vec<Reply>,
    at: usize,
) -> (step: Step<Result<Vec<PreflightFailure>, ScheduleError>>)
    ensures
        flow::step_view(step) == preflight_flow(
            environment.deep_view(),
            timeout,
            search_path.deep_view(),
            found.deep_view(),
            replies.deep_view(),
            at as int,
        ),
{
    if found.issues.len() > 0 {
        return Step::Done(Err(ScheduleError::Discovery(shown_issues(&found.issues))), at);
    }
    let (ssh, next) = match list_remotes(
        &environment.programs.git,
        &found.repositories,
        replies,
        at,
    ) {
        Step::Ask(request) => return Step::Ask(request),
        Step::Done(Err(error), next) => return Step::Done(Err(error), next),
        Step::Done(Ok(ssh), next) => (ssh, next),
    };
    let checked = if ssh {
        validate_ssh_agent(&environment.ssh_auth_sock, search_path, replies, next)
    } else {
        match &environment.ssh_auth_sock {
            None => Step::Done(Ok(()), next),
            Some(socket) => validate_socket(socket, replies, next),
        }
    };
    match checked {
        Step::Ask(request) => Step::Ask(request),
        Step::Done(Err(error), next) => Step::Done(Err(error), next),
        Step::Done(Ok(_), next) => try_fetches(
            environment,
            timeout,
            &found.repositories,
            replies,
            next,
        ),
    }
}

} // verus!
