//! Coordination with Herdr, which keeps panes and agents running in checkouts.
pub mod evaluation;
pub mod laws;
pub mod model;
pub mod retirement;
pub mod session;
pub mod stale;

pub use crate::herdr::retirement::retire_candidate;
pub use crate::herdr::stale::inspect_stale_workspaces;

use crate::cleanup;
use crate::command::{Reply, ReplyView, Request, RequestView};
use crate::filepath;
use crate::filepath::FilePath;
use crate::flow;
use crate::flow::{Flow, Step};
use crate::herdr::session::{SnapshotFound, SnapshotFoundView};
use crate::text;
use vstd::prelude::*;

verus! {

/// What has to be retired before a checkout can be removed.
#[derive(Debug, PartialEq, Eq)]
pub struct Coordination {
    /// The session that the workspaces belong to; none for the one that Herdr's client picks.
    pub session: Option<String>,
    /// The workspaces that belong to the checkout alone.
    pub workspaces: Vec<String>,
    /// The panes of the checkout.
    pub panes: Vec<String>,
    /// The processes of these panes, in order, each once.
    pub processes: Vec<u32>,
}

/// The content of a [`Coordination`].
pub struct CoordinationView {
    pub session: Option<Seq<char>>,
    pub workspaces: Seq<Seq<char>>,
    pub panes: Seq<Seq<char>>,
    pub processes: Seq<u32>,
}

impl DeepView for Coordination {
    type V = CoordinationView;

    open spec fn deep_view(&self) -> CoordinationView {
        CoordinationView {
            session: self.session.deep_view(),
            workspaces: self.workspaces.deep_view(),
            panes: self.panes.deep_view(),
            processes: self.processes@,
        }
    }
}

impl Clone for Coordination {
    fn clone(&self) -> (copy: Self)
        ensures
            copy.deep_view() == self.deep_view(),
    {
        Coordination {
            session: text::clone_optional(&self.session),
            workspaces: text::clone_texts(&self.workspaces),
            panes: text::clone_texts(&self.panes),
            processes: cleanup::clone_processes(&self.processes),
        }
    }
}

impl Coordination {
    /// Whether a workspace has to be retired.
    pub fn requires_retirement(&self) -> (required: bool)
        ensures
            required == (self.deep_view().workspaces.len() > 0),
    {
        self.workspaces.len() > 0
    }

    /// The processes that belong to the panes of the checkout.
    pub fn attributed_processes(&self) -> (processes: &Vec<u32>)
        ensures
            processes@ == self.deep_view().processes,
    {
        &self.processes
    }

    /// How many workspaces have to be retired.
    pub fn workspace_count(&self) -> (count: usize)
        ensures
            count == self.deep_view().workspaces.len(),
    {
        self.workspaces.len()
    }
}

/// What Herdr has against the removal of a checkout.
#[derive(Debug, PartialEq, Eq)]
pub enum CandidateStatus {
    /// Nothing is known, because Herdr is not there.
    Unavailable,
    /// Nothing, once the workspaces are retired.
    Clear(Coordination),
    /// A pane of the checkout is focused.
    FocusedPane { pane_id: String },
    /// An agent is active in the checkout.
    ActiveAgent { pane_id: String },
}

/// The content of a [`CandidateStatus`].
pub enum CandidateStatusView {
    Unavailable,
    Clear(CoordinationView),
    FocusedPane { pane_id: Seq<char> },
    ActiveAgent { pane_id: Seq<char> },
}

impl DeepView for CandidateStatus {
    type V = CandidateStatusView;

    open spec fn deep_view(&self) -> CandidateStatusView {
        match self {
            CandidateStatus::Unavailable => CandidateStatusView::Unavailable,
            CandidateStatus::Clear(value) => CandidateStatusView::Clear(value.deep_view()),
            CandidateStatus::FocusedPane { pane_id } => CandidateStatusView::FocusedPane {
                pane_id: pane_id@,
            },
            CandidateStatus::ActiveAgent { pane_id } => CandidateStatusView::ActiveAgent {
                pane_id: pane_id@,
            },
        }
    }
}

/// A workspace whose checkout is gone.
#[derive(Debug, PartialEq, Eq)]
pub struct StaleWorkspace {
    pub checkout_path: FilePath,
    pub status: CandidateStatus,
}

/// The content of a [`StaleWorkspace`].
pub struct StaleWorkspaceView {
    pub checkout_path: Seq<u8>,
    pub status: CandidateStatusView,
}

impl DeepView for StaleWorkspace {
    type V = StaleWorkspaceView;

    open spec fn deep_view(&self) -> StaleWorkspaceView {
        StaleWorkspaceView {
            checkout_path: self.checkout_path@,
            status: self.status.deep_view(),
        }
    }
}

/// The workspaces whose checkouts are gone.
#[derive(Debug, PartialEq, Eq)]
pub enum StaleWorkspaceStatus {
    Unavailable,
    Inspected(Vec<StaleWorkspace>),
}

/// The content of a [`StaleWorkspaceStatus`].
pub enum StaleWorkspaceStatusView {
    Unavailable,
    Inspected(Seq<StaleWorkspaceView>),
}

impl DeepView for StaleWorkspaceStatus {
    type V = StaleWorkspaceStatusView;

    open spec fn deep_view(&self) -> StaleWorkspaceStatusView {
        match self {
            StaleWorkspaceStatus::Unavailable => StaleWorkspaceStatusView::Unavailable,
            StaleWorkspaceStatus::Inspected(value) => StaleWorkspaceStatusView::Inspected(
                value.deep_view(),
            ),
        }
    }
}

/// Why Herdr's state cannot be relied on.
#[derive(Debug, PartialEq, Eq)]
pub enum InspectionError {
    MalformedJson(String),
    MalformedResult(String),
    IncompleteActivity(String),
    ProcessInspection(String),
}

/// The content of a [`InspectionError`].
pub enum InspectionErrorView {
    MalformedJson(Seq<char>),
    MalformedResult(Seq<char>),
    IncompleteActivity(Seq<char>),
    ProcessInspection(Seq<char>),
}

impl DeepView for InspectionError {
    type V = InspectionErrorView;

    open spec fn deep_view(&self) -> InspectionErrorView {
        match self {
            InspectionError::MalformedJson(value) => InspectionErrorView::MalformedJson(value@),
            InspectionError::MalformedResult(value) => InspectionErrorView::MalformedResult(value@),
            InspectionError::IncompleteActivity(value) => InspectionErrorView::IncompleteActivity(
                value@,
            ),
            InspectionError::ProcessInspection(value) => InspectionErrorView::ProcessInspection(
                value@,
            ),
        }
    }
}

/// The message of an error.
pub open spec fn inspection_message(error: InspectionErrorView) -> Seq<char> {
    match error {
        InspectionErrorView::MalformedJson(message) => "malformed Herdr snapshot JSON: "@
            + message,
        InspectionErrorView::MalformedResult(message) => "malformed Herdr snapshot: "@ + message,
        InspectionErrorView::IncompleteActivity(message) => "incomplete Herdr activity data: "@
            + message,
        InspectionErrorView::ProcessInspection(message) => {
            "Herdr pane process inspection failed: "@ + message
        },
    }
}

impl InspectionError {
    /// The message of the error.
    pub fn message(&self) -> (message: String)
        ensures
            message@ == inspection_message(self.deep_view()),
    {
        match self {
            InspectionError::MalformedJson(message) => text::concat2(
                "malformed Herdr snapshot JSON: ",
                message.as_str(),
            ),
            InspectionError::MalformedResult(message) => text::concat2(
                "malformed Herdr snapshot: ",
                message.as_str(),
            ),
            InspectionError::IncompleteActivity(message) => text::concat2(
                "incomplete Herdr activity data: ",
                message.as_str(),
            ),
            InspectionError::ProcessInspection(message) => text::concat2(
                "Herdr pane process inspection failed: ",
                message.as_str(),
            ),
        }
    }
}

/// Workspaces that could not be retired.
#[derive(Debug, PartialEq, Eq)]
pub struct RetirementError {
    pub message: String,
}

/// The content of a [`RetirementError`].
pub struct RetirementErrorView {
    pub message: Seq<char>,
}

impl DeepView for RetirementError {
    type V = RetirementErrorView;

    open spec fn deep_view(&self) -> RetirementErrorView {
        RetirementErrorView {
            message: self.message@,
        }
    }
}

/// The message of a failed retirement.
pub open spec fn retirement_message(error: RetirementErrorView) -> Seq<char> {
    "Herdr workspace retirement failed: "@ + error.message
}

impl RetirementError {
    /// The message of the error.
    pub fn message(&self) -> (message: String)
        ensures
            message@ == retirement_message(self.deep_view()),
    {
        text::concat2("Herdr workspace retirement failed: ", self.message.as_str())
    }
}

/// What an agent is doing.
#[derive(Debug, Clone, Copy, PartialEq, Eq, Structural)]
pub enum AgentStatus {
    Idle,
    Working,
    Blocked,
    Done,
    Unknown,
}

impl DeepView for AgentStatus {
    type V = AgentStatus;

    open spec fn deep_view(&self) -> AgentStatus {
        *self
    }
}

/// A pane of a session.
#[derive(Debug, PartialEq, Eq)]
pub struct Pane {
    pub id: String,
    pub workspace_id: String,
    pub focused: bool,
    pub cwd: Option<FilePath>,
    pub foreground_cwd: Option<FilePath>,
    pub agent: Option<String>,
    pub status: AgentStatus,
}

/// The content of a [`Pane`].
pub struct PaneView {
    pub id: Seq<char>,
    pub workspace_id: Seq<char>,
    pub focused: bool,
    pub cwd: Option<Seq<u8>>,
    pub foreground_cwd: Option<Seq<u8>>,
    pub agent: Option<Seq<char>>,
    pub status: AgentStatus,
}

impl DeepView for Pane {
    type V = PaneView;

    open spec fn deep_view(&self) -> PaneView {
        PaneView {
            id: self.id@,
            workspace_id: self.workspace_id@,
            focused: self.focused,
            cwd: self.cwd.deep_view(),
            foreground_cwd: self.foreground_cwd.deep_view(),
            agent: self.agent.deep_view(),
            status: self.status,
        }
    }
}

/// An agent of a session.
#[derive(Debug, PartialEq, Eq)]
pub struct Agent {
    pub id: String,
    pub workspace_id: String,
    pub cwd: Option<FilePath>,
    pub foreground_cwd: Option<FilePath>,
    pub status: AgentStatus,
}

/// The content of a [`Agent`].
pub struct AgentView {
    pub id: Seq<char>,
    pub workspace_id: Seq<char>,
    pub cwd: Option<Seq<u8>>,
    pub foreground_cwd: Option<Seq<u8>>,
    pub status: AgentStatus,
}

impl DeepView for Agent {
    type V = AgentView;

    open spec fn deep_view(&self) -> AgentView {
        AgentView {
            id: self.id@,
            workspace_id: self.workspace_id@,
            cwd: self.cwd.deep_view(),
            foreground_cwd: self.foreground_cwd.deep_view(),
            status: self.status,
        }
    }
}

/// The checkout of a workspace.
#[derive(Debug, PartialEq, Eq)]
pub struct WorkspaceWorktree {
    pub checkout_path: FilePath,
    pub is_linked_worktree: Option<bool>,
    /// The Git common directory of the repository.
    pub repo_key: Option<FilePath>,
}

/// The content of a [`WorkspaceWorktree`].
pub struct WorkspaceWorktreeView {
    pub checkout_path: Seq<u8>,
    pub is_linked_worktree: Option<bool>,
    pub repo_key: Option<Seq<u8>>,
}

impl DeepView for WorkspaceWorktree {
    type V = WorkspaceWorktreeView;

    open spec fn deep_view(&self) -> WorkspaceWorktreeView {
        WorkspaceWorktreeView {
            checkout_path: self.checkout_path@,
            is_linked_worktree: self.is_linked_worktree,
            repo_key: self.repo_key.deep_view(),
        }
    }
}

/// A workspace of a session.
#[derive(Debug, PartialEq, Eq)]
pub struct Workspace {
    pub workspace_id: String,
    pub worktree: Option<WorkspaceWorktree>,
}

/// The content of a [`Workspace`].
pub struct WorkspaceView {
    pub workspace_id: Seq<char>,
    pub worktree: Option<WorkspaceWorktreeView>,
}

impl DeepView for Workspace {
    type V = WorkspaceView;

    open spec fn deep_view(&self) -> WorkspaceView {
        WorkspaceView {
            workspace_id: self.workspace_id@,
            worktree: self.worktree.deep_view(),
        }
    }
}

/// The state of a session.
#[derive(Debug, PartialEq, Eq)]
pub struct Snapshot {
    pub version: String,
    pub protocol: u32,
    pub focused_pane_id: Option<String>,
    pub panes: Vec<Pane>,
    pub agents: Vec<Agent>,
    pub workspaces: Vec<Workspace>,
}

/// The content of a [`Snapshot`].
pub struct SnapshotView {
    pub version: Seq<char>,
    pub protocol: u32,
    pub focused_pane_id: Option<Seq<char>>,
    pub panes: Seq<PaneView>,
    pub agents: Seq<AgentView>,
    pub workspaces: Seq<WorkspaceView>,
}

impl DeepView for Snapshot {
    type V = SnapshotView;

    open spec fn deep_view(&self) -> SnapshotView {
        SnapshotView {
            version: self.version@,
            protocol: self.protocol,
            focused_pane_id: self.focused_pane_id.deep_view(),
            panes: self.panes.deep_view(),
            agents: self.agents.deep_view(),
            workspaces: self.workspaces.deep_view(),
        }
    }
}

/// The document in which Herdr describes a session.
#[derive(Debug, PartialEq, Eq)]
pub struct SnapshotDocument {
    pub kind: String,
    pub snapshot: Snapshot,
}

/// The content of a [`SnapshotDocument`].
pub struct SnapshotDocumentView {
    pub kind: Seq<char>,
    pub snapshot: SnapshotView,
}

impl DeepView for SnapshotDocument {
    type V = SnapshotDocumentView;

    open spec fn deep_view(&self) -> SnapshotDocumentView {
        SnapshotDocumentView {
            kind: self.kind@,
            snapshot: self.snapshot.deep_view(),
        }
    }
}

/// The document in which Herdr describes the processes of a pane.
#[derive(Debug, PartialEq, Eq)]
pub struct ProcessInfoDocument {
    pub kind: String,
    pub pane_id: String,
    pub shell_pid: Option<u32>,
    pub foreground_processes: Vec<u32>,
}

/// The content of a [`ProcessInfoDocument`].
pub struct ProcessInfoDocumentView {
    pub kind: Seq<char>,
    pub pane_id: Seq<char>,
    pub shell_pid: Option<u32>,
    pub foreground_processes: Seq<u32>,
}

impl DeepView for ProcessInfoDocument {
    type V = ProcessInfoDocumentView;

    open spec fn deep_view(&self) -> ProcessInfoDocumentView {
        ProcessInfoDocumentView {
            kind: self.kind@,
            pane_id: self.pane_id@,
            shell_pid: self.shell_pid,
            foreground_processes: self.foreground_processes@,
        }
    }
}

/// The document with which Herdr acknowledges a command.
#[derive(Debug, PartialEq, Eq)]
pub struct AcknowledgementDocument {
    pub kind: String,
    pub workspace_id: Option<String>,
}

/// The content of a [`AcknowledgementDocument`].
pub struct AcknowledgementDocumentView {
    pub kind: Seq<char>,
    pub workspace_id: Option<Seq<char>>,
}

impl DeepView for AcknowledgementDocument {
    type V = AcknowledgementDocumentView;

    open spec fn deep_view(&self) -> AcknowledgementDocumentView {
        AcknowledgementDocumentView {
            kind: self.kind@,
            workspace_id: self.workspace_id.deep_view(),
        }
    }
}

/// A session of Herdr.
#[derive(Debug, PartialEq, Eq)]
pub struct HerdrSession {
    pub name: String,
    pub running: bool,
}

/// The content of a [`HerdrSession`].
pub struct HerdrSessionView {
    pub name: Seq<char>,
    pub running: bool,
}

impl DeepView for HerdrSession {
    type V = HerdrSessionView;

    open spec fn deep_view(&self) -> HerdrSessionView {
        HerdrSessionView {
            name: self.name@,
            running: self.running,
        }
    }
}

/// What Herdr has against the removal of a checkout: the state of the session is read, the paths
/// in it are resolved, the state is judged, and the processes of the panes are found out.
pub open spec fn inspect_candidate_flow(
    candidate: Seq<u8>,
    timeout: u64,
    replies: Seq<ReplyView>,
    at: int,
) -> Flow<Result<CandidateStatusView, InspectionErrorView>> {
    match session::snapshot_flow(timeout, replies, at) {
        Flow::Ask(request) => Flow::Ask(request),
        Flow::Done(SnapshotFoundView::Unavailable, next) => Flow::Done(
            Ok(CandidateStatusView::Unavailable),
            next,
        ),
        Flow::Done(SnapshotFoundView::Malformed(error), next) => Flow::Done(Err(error), next),
        Flow::Done(SnapshotFoundView::Found(session, snapshot), next) => if next
            >= replies.len() {
            Flow::Ask(RequestView::Resolve(session::mentioned_paths(seq![candidate], snapshot)))
        } else {
            match evaluation::snapshot_status(
                session::resolved_table(replies[next]),
                snapshot,
                candidate,
                session,
            ) {
                Err(error) => Flow::Done(Err(error), next + 1),
                Ok(status) => session::attribute_flow(status, timeout, replies, next + 1),
            }
        },
    }
}

/// Checks whether a Herdr-managed pane or agent makes `candidate` unsafe to remove.
///
/// A missing client or unavailable socket is treated as an optional integration that is not
/// active. Once Herdr returns the state of a session, malformed candidate activity is an error.
pub fn inspect_candidate(
    candidate: &FilePath,
    timeout: u64,
    replies: &Vec<Reply>,
    at: usize,
) -> (step: Step<Result<CandidateStatus, InspectionError>>)
    ensures
        flow::step_view(step) == inspect_candidate_flow(
            candidate@,
            timeout,
            replies.deep_view(),
            at as int,
        ),
{
    match session::find_snapshot(timeout, replies, at) {
        Step::Ask(request) => Step::Ask(request),
        Step::Done(SnapshotFound::Unavailable, next) => Step::Done(
            Ok(CandidateStatus::Unavailable),
            next,
        ),
        Step::Done(SnapshotFound::Malformed(error), next) => Step::Done(Err(error), next),
        Step::Done(SnapshotFound::Found(session, snapshot), next) => {
            if next >= replies.len() {
                let mut first: Vec<FilePath> = Vec::new();
                assert(first.deep_view() =~= Seq::empty());
                filepath::push_path(&mut first, candidate.clone());
                assert(first.deep_view() =~= seq![candidate@]);
                return Step::Ask(Request::Resolve(session::collect_paths(first, snapshot)));
            }
            let evaluated = match &replies[next] {
                Reply::Resolved(table) => evaluation::evaluate_snapshot(
                    table,
                    snapshot,
                    candidate,
                    &session,
                ),
                _ => {
                    let table: Vec<(FilePath, FilePath)> = Vec::new();
                    assert(table.deep_view() =~= Seq::empty());
                    evaluation::evaluate_snapshot(&table, snapshot, candidate, &session)
                },
            };
            match evaluated {
                Err(error) => Step::Done(Err(error), next + 1),
                Ok(status) => session::attribute_processes(status, timeout, replies, next + 1),
            }
        },
    }
}

} // verus!
