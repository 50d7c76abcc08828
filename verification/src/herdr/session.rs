//! The session that is asked, its state, and the processes of its panes.
use crate::command;
use crate::command::RequestView;
use crate::command::{CommandLine, CommandResult, CommandResultView, Reply, ReplyView, Request};
use crate::filepath;
use crate::filepath::FilePath;
use crate::flow;
use crate::flow::{Flow, Step};
use crate::herdr::WorkspaceView;
use crate::herdr::{AgentView, CandidateStatus, CandidateStatusView, Coordination, CoordinationView};
use crate::herdr::{HerdrSession, HerdrSessionView, InspectionError, InspectionErrorView, PaneView};
use crate::herdr::{ProcessInfoDocument, ProcessInfoDocumentView, Snapshot, SnapshotView};
use crate::text;
use vstd::prelude::*;

verus! {

/// The paths with one more, if there is one.
pub open spec fn add_path(paths: Seq<Seq<u8>>, path: Option<Seq<u8>>) -> Seq<Seq<u8>> {
    match path {
        None => paths,
        Some(path) => paths.push(path),
    }
}

fn push_optional(paths: &mut Vec<FilePath>, path: &Option<FilePath>)
    ensures
        final(paths).deep_view() == add_path(old(paths).deep_view(), path.deep_view()),
{
    match path {
        None => {},
        Some(path) => filepath::push_path(paths, path.clone()),
    }
}

/// The paths, and the places of the panes behind them.
pub open spec fn with_pane_paths(paths: Seq<Seq<u8>>, panes: Seq<PaneView>) -> Seq<Seq<u8>>
    decreases panes.len(),
{
    if panes.len() == 0 {
        paths
    } else {
        let last = panes.last();
        add_path(
            add_path(with_pane_paths(paths, panes.drop_last()), last.cwd),
            last.foreground_cwd,
        )
    }
}

/// The paths, and the places of the agents behind them.
pub open spec fn with_agent_paths(paths: Seq<Seq<u8>>, agents: Seq<AgentView>) -> Seq<Seq<u8>>
    decreases agents.len(),
{
    if agents.len() == 0 {
        paths
    } else {
        let last = agents.last();
        add_path(
            add_path(with_agent_paths(paths, agents.drop_last()), last.cwd),
            last.foreground_cwd,
        )
    }
}

/// The paths, and those of the checkouts of the workspaces behind them.
pub open spec fn with_workspace_paths(
    paths: Seq<Seq<u8>>,
    workspaces: Seq<WorkspaceView>,
) -> Seq<Seq<u8>>
    decreases workspaces.len(),
{
    if workspaces.len() == 0 {
        paths
    } else {
        let before = with_workspace_paths(paths, workspaces.drop_last());
        match workspaces.last().worktree {
            None => before,
            Some(worktree) => add_path(before.push(worktree.checkout_path), worktree.repo_key),
        }
    }
}

/// All paths that a judgement about a snapshot rests on.
pub open spec fn mentioned_paths(first: Seq<Seq<u8>>, snapshot: SnapshotView) -> Seq<Seq<u8>> {
    with_workspace_paths(
        with_agent_paths(with_pane_paths(first, snapshot.panes), snapshot.agents),
        snapshot.workspaces,
    )
}

pub(crate) fn collect_paths(first: Vec<FilePath>, snapshot: &Snapshot) -> (paths: Vec<FilePath>)
    ensures
        paths.deep_view() == mentioned_paths(first.deep_view(), snapshot.deep_view()),
{
    let ghost start = first.deep_view();
    let ghost panes = snapshot.panes.deep_view();
    let ghost agents = snapshot.agents.deep_view();
    let ghost workspaces = snapshot.workspaces.deep_view();
    let mut paths = first;
    let mut i: usize = 0;
    assert(panes.take(0) =~= Seq::empty());
    while i < snapshot.panes.len()
        invariant
            i <= snapshot.panes.len(),
            panes == snapshot.panes.deep_view(),
            paths.deep_view() == with_pane_paths(start, panes.take(i as int)),
        decreases snapshot.panes.len() - i,
    {
        assert(panes.take(i + 1).drop_last() =~= panes.take(i as int));
        assert(panes.take(i + 1).last() == snapshot.panes[i as int].deep_view());
        push_optional(&mut paths, &snapshot.panes[i].cwd);
        push_optional(&mut paths, &snapshot.panes[i].foreground_cwd);
        i += 1;
    }
    assert(panes.take(i as int) =~= panes);
    let ghost start = paths.deep_view();
    let mut i: usize = 0;
    assert(agents.take(0) =~= Seq::empty());
    while i < snapshot.agents.len()
        invariant
            i <= snapshot.agents.len(),
            agents == snapshot.agents.deep_view(),
            paths.deep_view() == with_agent_paths(start, agents.take(i as int)),
        decreases snapshot.agents.len() - i,
    {
        assert(agents.take(i + 1).drop_last() =~= agents.take(i as int));
        assert(agents.take(i + 1).last() == snapshot.agents[i as int].deep_view());
        push_optional(&mut paths, &snapshot.agents[i].cwd);
        push_optional(&mut paths, &snapshot.agents[i].foreground_cwd);
        i += 1;
    }
    assert(agents.take(i as int) =~= agents);
    let ghost start = paths.deep_view();
    let mut i: usize = 0;
    assert(workspaces.take(0) =~= Seq::empty());
    while i < snapshot.workspaces.len()
        invariant
            i <= snapshot.workspaces.len(),
            workspaces == snapshot.workspaces.deep_view(),
            paths.deep_view() == with_workspace_paths(start, workspaces.take(i as int)),
        decreases snapshot.workspaces.len() - i,
    {
        assert(workspaces.take(i + 1).drop_last() =~= workspaces.take(i as int));
        assert(workspaces.take(i + 1).last() == snapshot.workspaces[i as int].deep_view());
        if let Some(worktree) = &snapshot.workspaces[i].worktree {
            filepath::push_path(&mut paths, worktree.checkout_path.clone());
            push_optional(&mut paths, &worktree.repo_key);
        }
        i += 1;
    }
    assert(workspaces.take(i as int) =~= workspaces);
    paths
}

/// The resolved paths that a reply tells of.
pub open spec fn resolved_table(reply: ReplyView) -> Seq<(Seq<u8>, Seq<u8>)> {
    match reply {
        ReplyView::Resolved(table) => table,
        _ => Seq::empty(),
    }
}

/// The names of the running sessions.
pub open spec fn running_sessions(sessions: Seq<HerdrSessionView>) -> Seq<Seq<char>>
    decreases sessions.len(),
{
    if sessions.len() == 0 {
        Seq::empty()
    } else {
        let before = running_sessions(sessions.drop_last());
        if sessions.last().running {
            before.push(sessions.last().name)
        } else {
            before
        }
    }
}

fn find_running(sessions: &Vec<HerdrSession>) -> (names: Vec<String>)
    ensures
        names.deep_view() == running_sessions(sessions.deep_view()),
{
    let ghost all = sessions.deep_view();
    let mut names = command::new_texts();
    let mut i: usize = 0;
    assert(all.take(0) =~= Seq::empty());
    while i < sessions.len()
        invariant
            i <= sessions.len(),
            all == sessions.deep_view(),
            names.deep_view() == running_sessions(all.take(i as int)),
        decreases sessions.len() - i,
    {
        assert(all.take(i + 1).drop_last() =~= all.take(i as int));
        assert(all.take(i + 1).last() == sessions[i as int].deep_view());
        if sessions[i].running {
            text::push_text(&mut names, sessions[i].name.as_str());
        }
        i += 1;
    }
    assert(all.take(i as int) =~= all);
    names
}

/// The session to name, where `sessions` are known: the only one that is running. Where there is
/// no such session, none is named.
pub open spec fn choose_session(sessions: Seq<HerdrSessionView>) -> Option<Seq<char>> {
    let names = running_sessions(sessions);
    if names.len() == 1 {
        Some(names[0])
    } else {
        None
    }
}

/// The choice of a session. Where none is named, Herdr's client is left to pick one.
pub open spec fn session_flow(timeout: u64, replies: Seq<ReplyView>, at: int) -> Flow<
    Option<Seq<char>>,
> {
    let line = command::plain_command(
        "herdr"@,
        seq!["session"@, "list"@, "--json"@],
        timeout,
    );
    match flow::run_flow(line, replies, at) {
        Flow::Ask(request) => Flow::Ask(request),
        Flow::Done(CommandResultView::Exited { code, stdout, stderr }, next) => {
            if !command::succeeded(code) {
                Flow::Done(None, next)
            } else if next >= replies.len() {
                Flow::Ask(RequestView::DecodeSessions(stdout))
            } else {
                match replies[next] {
                    ReplyView::Sessions(Ok(sessions)) => Flow::Done(
                        choose_session(sessions),
                        next + 1,
                    ),
                    _ => Flow::Done(None, next + 1),
                }
            }
        },
        Flow::Done(_, next) => Flow::Done(None, next),
    }
}

fn find_session(timeout: u64, replies: &Vec<Reply>, at: usize) -> (step: Step<Option<String>>)
    ensures
        step.deep_view() == session_flow(timeout, replies.deep_view(), at as int),
{
    let mut arguments = command::texts2("session", "list");
    text::push_text(&mut arguments, "--json");
    assert(arguments.deep_view() =~= seq!["session"@, "list"@, "--json"@]);
    let line = command::new_plain_command("herdr", arguments, timeout);
    match flow::run_step(line, replies, at) {
        Step::Ask(request) => Step::Ask(request),
        Step::Done(CommandResult::Exited { code, stdout, stderr }, next) => {
            if !command::is_success(code) {
                return Step::Done(None, next);
            }
            if next >= replies.len() {
                return Step::Ask(Request::DecodeSessions(stdout));
            }
            assert(replies.deep_view()[next as int] == replies[next as int].deep_view());
            match &replies[next] {
                Reply::Sessions(Ok(sessions)) => {
                    let names = find_running(sessions);
                    let choice = if names.len() == 1 {
                        assert(names.deep_view()[0] == names[0]@);
                        Some(names[0].clone())
                    } else {
                        None
                    };
                    Step::Done(choice, next + 1)
                },
                _ => Step::Done(None, next + 1),
            }
        },
        Step::Done(_, next) => Step::Done(None, next),
    }
}

/// The arguments that pick a session.
pub open spec fn session_arguments(session: Option<Seq<char>>) -> Seq<Seq<char>> {
    match session {
        None => Seq::empty(),
        Some(name) => seq!["--session"@, name],
    }
}

fn new_session_arguments(session: &Option<String>) -> (arguments: Vec<String>)
    ensures
        arguments.deep_view() == session_arguments(session.deep_view()),
{
    match session {
        None => command::new_texts(),
        Some(name) => command::texts2("--session", name.as_str()),
    }
}

/// The command that describes a session.
pub open spec fn snapshot_command(
    session: Option<Seq<char>>,
    timeout: u64,
) -> command::CommandLineView {
    command::plain_command(
        "herdr"@,
        session_arguments(session).push("api"@).push("snapshot"@),
        timeout,
    )
}

/// The command that describes the processes of a pane.
pub open spec fn process_command(
    session: Option<Seq<char>>,
    pane_id: Seq<char>,
    timeout: u64,
) -> command::CommandLineView {
    command::plain_command(
        "herdr"@,
        session_arguments(session).push("pane"@).push("process-info"@).push("--pane"@).push(pane_id),
        timeout,
    )
}

/// The command that closes a workspace.
pub open spec fn close_command(
    session: Option<Seq<char>>,
    workspace_id: Seq<char>,
    timeout: u64,
) -> command::CommandLineView {
    command::plain_command(
        "herdr"@,
        session_arguments(session).push("workspace"@).push("close"@).push(workspace_id),
        timeout,
    )
}

fn new_snapshot_command(session: &Option<String>, timeout: u64) -> (line: CommandLine)
    ensures
        line.deep_view() == snapshot_command(session.deep_view(), timeout),
{
    let mut arguments = new_session_arguments(session);
    text::push_text(&mut arguments, "api");
    text::push_text(&mut arguments, "snapshot");
    command::new_plain_command("herdr", arguments, timeout)
}

fn new_process_command(session: &Option<String>, pane_id: &str, timeout: u64) -> (line: CommandLine)
    ensures
        line.deep_view() == process_command(session.deep_view(), pane_id@, timeout),
{
    let mut arguments = new_session_arguments(session);
    text::push_text(&mut arguments, "pane");
    text::push_text(&mut arguments, "process-info");
    text::push_text(&mut arguments, "--pane");
    text::push_text(&mut arguments, pane_id);
    command::new_plain_command("herdr", arguments, timeout)
}

pub(crate) fn new_close_command(
    session: &Option<String>,
    workspace_id: &str,
    timeout: u64,
) -> (line: CommandLine)
    ensures
        line.deep_view() == close_command(session.deep_view(), workspace_id@, timeout),
{
    let mut arguments = new_session_arguments(session);
    text::push_text(&mut arguments, "workspace");
    text::push_text(&mut arguments, "close");
    text::push_text(&mut arguments, workspace_id);
    command::new_plain_command("herdr", arguments, timeout)
}

/// What came of asking Herdr for the state of a session.
#[derive(Debug, PartialEq, Eq)]
pub enum SnapshotFound<'a> {
    /// Herdr is not there.
    Unavailable,
    /// Herdr is there, but what it says cannot be relied on.
    Malformed(InspectionError),
    /// The session's name, if it has one, and its state.
    Found(Option<String>, &'a Snapshot),
}

/// The content of a [`SnapshotFound`].
pub enum SnapshotFoundView {
    Unavailable,
    Malformed(InspectionErrorView),
    Found(Option<Seq<char>>, SnapshotView),
}

impl<'a> DeepView for SnapshotFound<'a> {
    type V = SnapshotFoundView;

    open spec fn deep_view(&self) -> SnapshotFoundView {
        match self {
            SnapshotFound::Unavailable => SnapshotFoundView::Unavailable,
            SnapshotFound::Malformed(error) => SnapshotFoundView::Malformed(error.deep_view()),
            SnapshotFound::Found(session, snapshot) => SnapshotFoundView::Found(
                session.deep_view(),
                snapshot.deep_view(),
            ),
        }
    }
}

/// The state of the session to coordinate with. A missing client or an unavailable socket means
/// that there is none to coordinate with.
pub open spec fn snapshot_flow(timeout: u64, replies: Seq<ReplyView>, at: int) -> Flow<
    SnapshotFoundView,
> {
    match session_flow(timeout, replies, at) {
        Flow::Ask(request) => Flow::Ask(request),
        Flow::Done(session, next) => match flow::run_flow(
            snapshot_command(session, timeout),
            replies,
            next,
        ) {
            Flow::Ask(request) => Flow::Ask(request),
            Flow::Done(CommandResultView::Exited { code, stdout, stderr }, next) => {
                if !command::succeeded(code) {
                    Flow::Done(SnapshotFoundView::Unavailable, next)
                } else if next >= replies.len() {
                    Flow::Ask(RequestView::DecodeSnapshot(stdout))
                } else {
                    match replies[next] {
                        ReplyView::Snapshot(Ok(document)) => if document.kind
                            != "session_snapshot"@ {
                            Flow::Done(
                                SnapshotFoundView::Malformed(
                                    InspectionErrorView::MalformedResult(
                                        "expected session_snapshot result, received "@
                                            + text::quoted_text(document.kind),
                                    ),
                                ),
                                next + 1,
                            )
                        } else {
                            Flow::Done(
                                SnapshotFoundView::Found(session, document.snapshot),
                                next + 1,
                            )
                        },
                        ReplyView::Snapshot(Err(error)) => Flow::Done(
                            SnapshotFoundView::Malformed(InspectionErrorView::MalformedJson(error)),
                            next + 1,
                        ),
                        _ => Flow::Done(
                            SnapshotFoundView::Malformed(
                                InspectionErrorView::MalformedJson(command::UNEXPECTED_REPLY@),
                            ),
                            next + 1,
                        ),
                    }
                }
            },
            Flow::Done(_, next) => Flow::Done(SnapshotFoundView::Unavailable, next),
        },
    }
}

pub(crate) fn find_snapshot<'a>(timeout: u64, replies: &'a Vec<Reply>, at: usize) -> (step: Step<
    SnapshotFound<'a>,
>)
    ensures
        step.deep_view() == snapshot_flow(timeout, replies.deep_view(), at as int),
{
    let (session, next) = match find_session(timeout, replies, at) {
        Step::Ask(request) => return Step::Ask(request),
        Step::Done(session, next) => (session, next),
    };
    match flow::run_step(new_snapshot_command(&session, timeout), replies, next) {
        Step::Ask(request) => Step::Ask(request),
        Step::Done(CommandResult::Exited { code, stdout, stderr }, next) => {
            if !command::is_success(code) {
                return Step::Done(SnapshotFound::Unavailable, next);
            }
            if next >= replies.len() {
                return Step::Ask(Request::DecodeSnapshot(stdout));
            }
            assert(replies.deep_view()[next as int] == replies[next as int].deep_view());
            match &replies[next] {
                Reply::Snapshot(Ok(document)) => {
                    if !text::same_text(document.kind.as_str(), "session_snapshot") {
                        let kind = text::quoted(document.kind.as_str());
                        return Step::Done(
                            SnapshotFound::Malformed(
                                InspectionError::MalformedResult(
                                    text::concat2(
                                        "expected session_snapshot result, received ",
                                        kind.as_str(),
                                    ),
                                ),
                            ),
                            next + 1,
                        );
                    }
                    Step::Done(SnapshotFound::Found(session, &document.snapshot), next + 1)
                },
                Reply::Snapshot(Err(error)) => Step::Done(
                    SnapshotFound::Malformed(InspectionError::MalformedJson(error.clone())),
                    next + 1,
                ),
                _ => Step::Done(
                    SnapshotFound::Malformed(
                        InspectionError::MalformedJson(command::UNEXPECTED_REPLY.to_owned()),
                    ),
                    next + 1,
                ),
            }
        },
        Step::Done(_, next) => Step::Done(SnapshotFound::Unavailable, next),
    }
}

/// A failed inspection of the processes of a pane.
pub open spec fn process_failure(pane_id: Seq<char>, message: Seq<char>) -> InspectionErrorView {
    InspectionErrorView::ProcessInspection("pane "@ + pane_id + ": "@ + message)
}

fn new_process_failure(pane_id: &str, message: &str) -> (error: InspectionError)
    ensures
        error.deep_view() == process_failure(pane_id@, message@),
{
    InspectionError::ProcessInspection(text::concat4("pane ", pane_id, ": ", message))
}

/// The processes with `more` put in their places.
pub open spec fn insert_all(processes: Seq<u32>, more: Seq<u32>) -> Seq<u32>
    decreases more.len(),
{
    if more.len() == 0 {
        processes
    } else {
        text::insert_number(insert_all(processes, more.drop_last()), more.last())
    }
}

fn add_processes(processes: Vec<u32>, more: &Vec<u32>) -> (all: Vec<u32>)
    ensures
        all@ == insert_all(processes@, more@),
{
    let ghost start = processes@;
    let mut all = processes;
    let mut i: usize = 0;
    assert(more@.take(0) =~= Seq::empty());
    while i < more.len()
        invariant
            i <= more.len(),
            all@ == insert_all(start, more@.take(i as int)),
        decreases more.len() - i,
    {
        assert(more@.take(i + 1).drop_last() =~= more@.take(i as int));
        all = text::insert_ordered(all, more[i]);
        i += 1;
    }
    assert(more@.take(i as int) =~= more@);
    all
}

/// The processes together with those of one pane, as its description has them.
pub open spec fn pane_processes(
    document: ProcessInfoDocumentView,
    pane_id: Seq<char>,
    processes: Seq<u32>,
) -> Result<Seq<u32>, InspectionErrorView> {
    if document.kind != "pane_process_info"@ || document.pane_id != pane_id {
        Err(process_failure(pane_id, "malformed process-info result"@))
    } else {
        match document.shell_pid {
            None => Err(process_failure(pane_id, "shell PID is missing"@)),
            Some(shell) => Ok(
                insert_all(text::insert_number(processes, shell), document.foreground_processes),
            ),
        }
    }
}

fn read_processes(
    document: &ProcessInfoDocument,
    pane_id: &str,
    processes: Vec<u32>,
) -> (result: Result<Vec<u32>, InspectionError>)
    ensures
        pane_processes(document.deep_view(), pane_id@, processes@) == (match result {
            Ok(all) => Ok::<Seq<u32>, InspectionErrorView>(all@),
            Err(error) => Err(error.deep_view()),
        }),
{
    if !text::same_text(document.kind.as_str(), "pane_process_info") || !text::same_text(
        document.pane_id.as_str(),
        pane_id,
    ) {
        return Err(new_process_failure(pane_id, "malformed process-info result"));
    }
    match document.shell_pid {
        None => Err(new_process_failure(pane_id, "shell PID is missing")),
        Some(shell) => {
            let with_shell = text::insert_ordered(processes, shell);
            Ok(add_processes(with_shell, &document.foreground_processes))
        },
    }
}

/// The processes of the panes from number `i` on, together with `processes`.
pub open spec fn processes_flow(
    session: Option<Seq<char>>,
    panes: Seq<Seq<char>>,
    i: int,
    processes: Seq<u32>,
    timeout: u64,
    replies: Seq<ReplyView>,
    at: int,
) -> Flow<Result<Seq<u32>, InspectionErrorView>>
    decreases panes.len() - i,
{
    if i >= panes.len() {
        Flow::Done(Ok(processes), at)
    } else {
        match flow::run_flow(process_command(session, panes[i], timeout), replies, at) {
            Flow::Ask(request) => Flow::Ask(request),
            Flow::Done(CommandResultView::Exited { code, stdout, stderr }, next) => {
                if !command::succeeded(code) {
                    Flow::Done(Err(process_failure(panes[i], flow::stderr_text(stderr))), next)
                } else if next >= replies.len() {
                    Flow::Ask(RequestView::DecodeProcessInfo(stdout))
                } else {
                    match replies[next] {
                        ReplyView::ProcessInfo(Ok(document)) => match pane_processes(
                            document,
                            panes[i],
                            processes,
                        ) {
                            Err(error) => Flow::Done(Err(error), next + 1),
                            Ok(more) => processes_flow(
                                session,
                                panes,
                                i + 1,
                                more,
                                timeout,
                                replies,
                                next + 1,
                            ),
                        },
                        ReplyView::ProcessInfo(Err(error)) => Flow::Done(
                            Err(process_failure(panes[i], "malformed JSON: "@ + error)),
                            next + 1,
                        ),
                        _ => Flow::Done(
                            Err(
                                process_failure(
                                    panes[i],
                                    "malformed JSON: "@ + command::UNEXPECTED_REPLY@,
                                ),
                            ),
                            next + 1,
                        ),
                    }
                }
            },
            Flow::Done(_, next) => Flow::Done(
                Err(process_failure(panes[i], "client or socket became unavailable"@)),
                next,
            ),
        }
    }
}

/// The content of where an inspection of processes stands.
pub open spec fn processes_view(step: Step<Result<Vec<u32>, InspectionError>>) -> Flow<
    Result<Seq<u32>, InspectionErrorView>,
> {
    match step {
        Step::Ask(request) => Flow::Ask(request.deep_view()),
        Step::Done(Ok(processes), at) => Flow::Done(Ok(processes@), at as int),
        Step::Done(Err(error), at) => Flow::Done(Err(error.deep_view()), at as int),
    }
}

fn inspect_pane_processes(
    session: &Option<String>,
    panes: &Vec<String>,
    timeout: u64,
    replies: &Vec<Reply>,
    at: usize,
) -> (step: Step<Result<Vec<u32>, InspectionError>>)
    ensures
        processes_view(step) == processes_flow(
            session.deep_view(),
            panes.deep_view(),
            0,
            Seq::empty(),
            timeout,
            replies.deep_view(),
            at as int,
        ),
{
    let ghost all = panes.deep_view();
    let ghost goal = processes_flow(
        session.deep_view(),
        all,
        0,
        Seq::empty(),
        timeout,
        replies.deep_view(),
        at as int,
    );
    let mut processes: Vec<u32> = Vec::new();
    let mut position: usize = at;
    let mut i: usize = 0;
    assert(processes@ =~= Seq::empty());
    while i < panes.len()
        invariant
            i <= panes.len(),
            all == panes.deep_view(),
            goal == processes_flow(
                session.deep_view(),
                all,
                0,
                Seq::empty(),
                timeout,
                replies.deep_view(),
                at as int,
            ),
            goal == processes_flow(
                session.deep_view(),
                all,
                i as int,
                processes@,
                timeout,
                replies.deep_view(),
                position as int,
            ),
        decreases panes.len() - i,
    {
        let pane_id = panes[i].as_str();
        assert(all[i as int] == pane_id@);
        match flow::run_step(new_process_command(session, pane_id, timeout), replies, position) {
            Step::Ask(request) => return Step::Ask(request),
            Step::Done(CommandResult::Exited { code, stdout, stderr }, next) => {
                if !command::is_success(code) {
                    let message = flow::stderr_message(&stderr);
                    return Step::Done(Err(new_process_failure(pane_id, message.as_str())), next);
                }
                if next >= replies.len() {
                    return Step::Ask(Request::DecodeProcessInfo(stdout));
                }
                assert(replies.deep_view()[next as int] == replies[next as int].deep_view());
                match &replies[next] {
                    Reply::ProcessInfo(Ok(document)) => match read_processes(
                        document,
                        pane_id,
                        processes,
                    ) {
                        Err(error) => return Step::Done(Err(error), next + 1),
                        Ok(more) => {
                            processes = more;
                            position = next + 1;
                        },
                    },
                    Reply::ProcessInfo(Err(error)) => {
                        let message = text::concat2("malformed JSON: ", error.as_str());
                        return Step::Done(
                            Err(new_process_failure(pane_id, message.as_str())),
                            next + 1,
                        );
                    },
                    _ => {
                        let message = text::concat2("malformed JSON: ", command::UNEXPECTED_REPLY);
                        return Step::Done(
                            Err(new_process_failure(pane_id, message.as_str())),
                            next + 1,
                        );
                    },
                }
            },
            Step::Done(_, next) => {
                return Step::Done(
                    Err(new_process_failure(pane_id, "client or socket became unavailable")),
                    next,
                );
            },
        }
        i += 1;
    }
    Step::Done(Ok(processes), position)
}

/// A status together with the processes of the panes that it names.
pub open spec fn attribute_flow(
    status: CandidateStatusView,
    timeout: u64,
    replies: Seq<ReplyView>,
    at: int,
) -> Flow<Result<CandidateStatusView, InspectionErrorView>> {
    match status {
        CandidateStatusView::Clear(coordination) => match processes_flow(
            coordination.session,
            coordination.panes,
            0,
            Seq::empty(),
            timeout,
            replies,
            at,
        ) {
            Flow::Ask(request) => Flow::Ask(request),
            Flow::Done(Err(error), next) => Flow::Done(Err(error), next),
            Flow::Done(Ok(processes), next) => Flow::Done(
                Ok(CandidateStatusView::Clear(CoordinationView { processes, ..coordination })),
                next,
            ),
        },
        status => Flow::Done(Ok(status), at),
    }
}

pub(crate) fn attribute_processes(
    status: CandidateStatus,
    timeout: u64,
    replies: &Vec<Reply>,
    at: usize,
) -> (step:
    Step<Result<CandidateStatus, InspectionError>>)
    ensures
        flow::step_view(step) == attribute_flow(
            status.deep_view(),
            timeout,
            replies.deep_view(),
            at as int,
        ),
{
    match status {
        CandidateStatus::Clear(coordination) => match inspect_pane_processes(
            &coordination.session,
            &coordination.panes,
            timeout,
            replies,
            at,
        ) {
            Step::Ask(request) => Step::Ask(request),
            Step::Done(Err(error), next) => Step::Done(Err(error), next),
            Step::Done(Ok(processes), next) => Step::Done(
                Ok(
                    CandidateStatus::Clear(
                        Coordination {
                            session: coordination.session,
                            workspaces: coordination.workspaces,
                            panes: coordination.panes,
                            processes,
                        },
                    ),
                ),
                next,
            ),
        },
        CandidateStatus::Unavailable => Step::Done(Ok(CandidateStatus::Unavailable), at),
        CandidateStatus::FocusedPane { pane_id } => Step::Done(
            Ok(CandidateStatus::FocusedPane { pane_id }),
            at,
        ),
        CandidateStatus::ActiveAgent { pane_id } => Step::Done(
            Ok(CandidateStatus::ActiveAgent { pane_id }),
            at,
        ),
    }
}

} // verus!
