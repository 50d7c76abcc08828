//! The machine-readable record of a run.
use crate::filepath::FilePath;
use vstd::prelude::*;

verus! {

/// The version of the records' layout.
pub const OUTPUT_SCHEMA_VERSION: u32 = 2;

/// The version of this tool.
pub const TOOL_VERSION: &'static str = "0.1.0";

/// The command that a run carries out.
#[derive(Debug, Clone, Copy, PartialEq, Eq, Structural)]
pub enum CommandName {
    Scan,
    Prune,
}

impl DeepView for CommandName {
    type V = CommandName;

    open spec fn deep_view(&self) -> CommandName {
        *self
    }
}

/// What became of the inspection of a repository.
#[derive(Debug, Clone, Copy, PartialEq, Eq, Structural)]
pub enum RepositoryOutcome {
    Inspected,
    FetchFailed,
    FetchTimedOut,
    IntegrationFailed,
    Malformed,
}

impl DeepView for RepositoryOutcome {
    type V = RepositoryOutcome;

    open spec fn deep_view(&self) -> RepositoryOutcome {
        *self
    }
}

/// What a run decides about a worktree.
#[derive(Debug, Clone, Copy, PartialEq, Eq, Structural)]
pub enum WorktreeOutcome {
    Retained,
    Candidate,
    Skipped,
    Removed,
    Refused,
    Malformed,
}

impl DeepView for WorktreeOutcome {
    type V = WorktreeOutcome;

    open spec fn deep_view(&self) -> WorktreeOutcome {
        *self
    }
}

/// Machine-stable explanations. Human wording may change; these values do not.
#[derive(Debug, Clone, Copy, PartialEq, Eq, Structural)]
pub enum ReasonCode {
    Okay,
    InaccessibleRoot,
    InaccessibleDirectory,
    UnsafeCanonicalization,
    FetchFailed,
    FetchTimedOut,
    InvalidGitMetadata,
    MalformedPorcelain,
    MainWorktree,
    UpstreamExists,
    NoUpstream,
    DetachedWorktree,
    DanglingSymbolicHead,
    PrunableWorktree,
    LockedWorktree,
    UpstreamMissing,
    IntegratedSameCommit,
    IntegratedAncestor,
    IntegratedNoAddedChanges,
    IntegratedTreesMatch,
    IntegratedMergeAddsNothing,
    IntegratedPatchIdMatch,
    NotIntegrated,
    IntegrationIndeterminate,
    DefaultBranchUnresolved,
    WorktrunkFailed,
    DirtyWorktree,
    CheckedOutMultipleTimes,
    ProcessUsingWorktree,
    HerdrFocusedPane,
    HerdrActiveAgent,
    HerdrCoordinationPending,
    HerdrStaleWorkspacePending,
    HerdrStaleWorkspaceRetired,
    HerdrStaleWorkspaceFailed,
    HerdrInspectionFailed,
    SafetyInspectionFailed,
    WorktreeMissing,
    WorktreeChanged,
    RemovalNotConfirmed,
    RemovalFailed,
    HerdrCleanupFailed,
    HerdrRetirementFailed,
    BranchDeleted,
    BranchDeletionNotAttempted,
    BranchRetainedUnmerged,
    BranchRetainedRaced,
    BranchRetainedCheckedOut,
    BranchDeletionFailed,
}

impl DeepView for ReasonCode {
    type V = ReasonCode;

    open spec fn deep_view(&self) -> ReasonCode {
        *self
    }
}

/// The name of an outcome in records and in the state file.
pub open spec fn outcome_name(value: WorktreeOutcome) -> Seq<char> {
    match value {
        WorktreeOutcome::Retained => "retained"@,
        WorktreeOutcome::Candidate => "candidate"@,
        WorktreeOutcome::Skipped => "skipped"@,
        WorktreeOutcome::Removed => "removed"@,
        WorktreeOutcome::Refused => "refused"@,
        WorktreeOutcome::Malformed => "malformed"@,
    }
}

impl WorktreeOutcome {
    /// The name of an outcome in records and in the state file.
    pub fn name(self) -> (name: &'static str)
        ensures
            name@ == outcome_name(self),
    {
        match self {
            WorktreeOutcome::Retained => "retained",
            WorktreeOutcome::Candidate => "candidate",
            WorktreeOutcome::Skipped => "skipped",
            WorktreeOutcome::Removed => "removed",
            WorktreeOutcome::Refused => "refused",
            WorktreeOutcome::Malformed => "malformed",
        }
    }
}

/// The name of a reason in records and in the state file.
pub open spec fn reason_name(value: ReasonCode) -> Seq<char> {
    match value {
        ReasonCode::Okay => "ok"@,
        ReasonCode::InaccessibleRoot => "inaccessible_root"@,
        ReasonCode::InaccessibleDirectory => "inaccessible_directory"@,
        ReasonCode::UnsafeCanonicalization => "unsafe_canonicalization"@,
        ReasonCode::FetchFailed => "fetch_failed"@,
        ReasonCode::FetchTimedOut => "fetch_timed_out"@,
        ReasonCode::InvalidGitMetadata => "invalid_git_metadata"@,
        ReasonCode::MalformedPorcelain => "malformed_porcelain"@,
        ReasonCode::MainWorktree => "main_worktree"@,
        ReasonCode::UpstreamExists => "upstream_exists"@,
        ReasonCode::NoUpstream => "no_upstream"@,
        ReasonCode::DetachedWorktree => "detached_worktree"@,
        ReasonCode::DanglingSymbolicHead => "dangling_symbolic_head"@,
        ReasonCode::PrunableWorktree => "prunable_worktree"@,
        ReasonCode::LockedWorktree => "locked_worktree"@,
        ReasonCode::UpstreamMissing => "upstream_missing"@,
        ReasonCode::IntegratedSameCommit => "integrated_same_commit"@,
        ReasonCode::IntegratedAncestor => "integrated_ancestor"@,
        ReasonCode::IntegratedNoAddedChanges => "integrated_no_added_changes"@,
        ReasonCode::IntegratedTreesMatch => "integrated_trees_match"@,
        ReasonCode::IntegratedMergeAddsNothing => "integrated_merge_adds_nothing"@,
        ReasonCode::IntegratedPatchIdMatch => "integrated_patch_id_match"@,
        ReasonCode::NotIntegrated => "not_integrated"@,
        ReasonCode::IntegrationIndeterminate => "integration_indeterminate"@,
        ReasonCode::DefaultBranchUnresolved => "default_branch_unresolved"@,
        ReasonCode::WorktrunkFailed => "worktrunk_failed"@,
        ReasonCode::DirtyWorktree => "dirty_worktree"@,
        ReasonCode::CheckedOutMultipleTimes => "checked_out_multiple_times"@,
        ReasonCode::ProcessUsingWorktree => "process_using_worktree"@,
        ReasonCode::HerdrFocusedPane => "herdr_focused_pane"@,
        ReasonCode::HerdrActiveAgent => "herdr_active_agent"@,
        ReasonCode::HerdrCoordinationPending => "herdr_coordination_pending"@,
        ReasonCode::HerdrStaleWorkspacePending => "herdr_stale_workspace_pending"@,
        ReasonCode::HerdrStaleWorkspaceRetired => "herdr_stale_workspace_retired"@,
        ReasonCode::HerdrStaleWorkspaceFailed => "herdr_stale_workspace_failed"@,
        ReasonCode::HerdrInspectionFailed => "herdr_inspection_failed"@,
        ReasonCode::SafetyInspectionFailed => "safety_inspection_failed"@,
        ReasonCode::WorktreeMissing => "worktree_missing"@,
        ReasonCode::WorktreeChanged => "worktree_changed"@,
        ReasonCode::RemovalNotConfirmed => "removal_not_confirmed"@,
        ReasonCode::RemovalFailed => "removal_failed"@,
        ReasonCode::HerdrCleanupFailed => "herdr_cleanup_failed"@,
        ReasonCode::HerdrRetirementFailed => "herdr_retirement_failed"@,
        ReasonCode::BranchDeleted => "branch_deleted"@,
        ReasonCode::BranchDeletionNotAttempted => "branch_deletion_not_attempted"@,
        ReasonCode::BranchRetainedUnmerged => "branch_retained_unmerged"@,
        ReasonCode::BranchRetainedRaced => "branch_retained_raced"@,
        ReasonCode::BranchRetainedCheckedOut => "branch_retained_checked_out"@,
        ReasonCode::BranchDeletionFailed => "branch_deletion_failed"@,
    }
}

impl ReasonCode {
    /// The name of a reason in records and in the state file.
    pub fn name(self) -> (name: &'static str)
        ensures
            name@ == reason_name(self),
    {
        match self {
            ReasonCode::Okay => "ok",
            ReasonCode::InaccessibleRoot => "inaccessible_root",
            ReasonCode::InaccessibleDirectory => "inaccessible_directory",
            ReasonCode::UnsafeCanonicalization => "unsafe_canonicalization",
            ReasonCode::FetchFailed => "fetch_failed",
            ReasonCode::FetchTimedOut => "fetch_timed_out",
            ReasonCode::InvalidGitMetadata => "invalid_git_metadata",
            ReasonCode::MalformedPorcelain => "malformed_porcelain",
            ReasonCode::MainWorktree => "main_worktree",
            ReasonCode::UpstreamExists => "upstream_exists",
            ReasonCode::NoUpstream => "no_upstream",
            ReasonCode::DetachedWorktree => "detached_worktree",
            ReasonCode::DanglingSymbolicHead => "dangling_symbolic_head",
            ReasonCode::PrunableWorktree => "prunable_worktree",
            ReasonCode::LockedWorktree => "locked_worktree",
            ReasonCode::UpstreamMissing => "upstream_missing",
            ReasonCode::IntegratedSameCommit => "integrated_same_commit",
            ReasonCode::IntegratedAncestor => "integrated_ancestor",
            ReasonCode::IntegratedNoAddedChanges => "integrated_no_added_changes",
            ReasonCode::IntegratedTreesMatch => "integrated_trees_match",
            ReasonCode::IntegratedMergeAddsNothing => "integrated_merge_adds_nothing",
            ReasonCode::IntegratedPatchIdMatch => "integrated_patch_id_match",
            ReasonCode::NotIntegrated => "not_integrated",
            ReasonCode::IntegrationIndeterminate => "integration_indeterminate",
            ReasonCode::DefaultBranchUnresolved => "default_branch_unresolved",
            ReasonCode::WorktrunkFailed => "worktrunk_failed",
            ReasonCode::DirtyWorktree => "dirty_worktree",
            ReasonCode::CheckedOutMultipleTimes => "checked_out_multiple_times",
            ReasonCode::ProcessUsingWorktree => "process_using_worktree",
            ReasonCode::HerdrFocusedPane => "herdr_focused_pane",
            ReasonCode::HerdrActiveAgent => "herdr_active_agent",
            ReasonCode::HerdrCoordinationPending => "herdr_coordination_pending",
            ReasonCode::HerdrStaleWorkspacePending => "herdr_stale_workspace_pending",
            ReasonCode::HerdrStaleWorkspaceRetired => "herdr_stale_workspace_retired",
            ReasonCode::HerdrStaleWorkspaceFailed => "herdr_stale_workspace_failed",
            ReasonCode::HerdrInspectionFailed => "herdr_inspection_failed",
            ReasonCode::SafetyInspectionFailed => "safety_inspection_failed",
            ReasonCode::WorktreeMissing => "worktree_missing",
            ReasonCode::WorktreeChanged => "worktree_changed",
            ReasonCode::RemovalNotConfirmed => "removal_not_confirmed",
            ReasonCode::RemovalFailed => "removal_failed",
            ReasonCode::HerdrCleanupFailed => "herdr_cleanup_failed",
            ReasonCode::HerdrRetirementFailed => "herdr_retirement_failed",
            ReasonCode::BranchDeleted => "branch_deleted",
            ReasonCode::BranchDeletionNotAttempted => "branch_deletion_not_attempted",
            ReasonCode::BranchRetainedUnmerged => "branch_retained_unmerged",
            ReasonCode::BranchRetainedRaced => "branch_retained_raced",
            ReasonCode::BranchRetainedCheckedOut => "branch_retained_checked_out",
            ReasonCode::BranchDeletionFailed => "branch_deletion_failed",
        }
    }
}

/// The totals of a run.
#[derive(Debug, Clone, Copy, PartialEq, Eq, Structural)]
pub struct Summary {
    pub schema_version: u32,
    pub command: CommandName,
    pub apply: bool,
    pub repositories_scanned: u64,
    pub fetch_failures: u64,
    pub worktrees_inspected: u64,
    pub candidates: u64,
    pub removals: u64,
    pub refusals: u64,
    pub malformed_states: u64,
    pub operational_failures: u64,
}

impl DeepView for Summary {
    type V = Summary;

    open spec fn deep_view(&self) -> Summary {
        *self
    }
}

/// The totals of a run that has done nothing yet.
pub open spec fn empty_summary(command: CommandName, apply: bool) -> Summary {
    Summary {
        schema_version: OUTPUT_SCHEMA_VERSION,
        command,
        apply,
        repositories_scanned: 0,
        fetch_failures: 0,
        worktrees_inspected: 0,
        candidates: 0,
        removals: 0,
        refusals: 0,
        malformed_states: 0,
        operational_failures: 0,
    }
}

/// A count raised by `more`; it stays at the largest number once it has reached it.
pub open spec fn raised(count: u64, more: nat) -> u64 {
    if count + more > u64::MAX {
        u64::MAX
    } else {
        (count + more) as u64
    }
}

/// A count raised by `more`.
pub fn raise(count: u64, more: u64) -> (total: u64)
    ensures
        total == raised(count, more as nat),
{
    if count > u64::MAX - more {
        u64::MAX
    } else {
        count + more
    }
}

impl Summary {
    /// The totals of a run that has done nothing yet.
    pub fn empty(command: CommandName, apply: bool) -> (summary: Summary)
        ensures
            summary == empty_summary(command, apply),
    {
        Summary {
            schema_version: OUTPUT_SCHEMA_VERSION,
            command,
            apply,
            repositories_scanned: 0,
            fetch_failures: 0,
            worktrees_inspected: 0,
            candidates: 0,
            removals: 0,
            refusals: 0,
            malformed_states: 0,
            operational_failures: 0,
        }
    }

    /// The exit code of the run: zero exactly where nothing failed operationally, whatever was
    /// refused or retained.
    pub fn exit_code(&self) -> (code: u8)
        ensures
            code == (if self.operational_failures == 0 {
                0u8
            } else {
                1u8
            }),
    {
        if self.operational_failures == 0 {
            0
        } else {
            1
        }
    }

    /// The totals with one more operational failure.
    pub open spec fn with_failure(self) -> Summary {
        Summary { operational_failures: raised(self.operational_failures, 1), ..self }
    }

    /// Counts one operational failure.
    pub fn count_failure(self) -> (summary: Summary)
        ensures
            summary == self.with_failure(),
    {
        Summary { operational_failures: raise(self.operational_failures, 1), ..self }
    }
}

/// One record of the output of a run.
#[derive(Debug, PartialEq, Eq)]
#[allow(inconsistent_fields)]
pub enum Event {
    RunStarted { schema_version: u32, tool_version: String, command: CommandName, apply: bool },
    Repository {
        schema_version: u32,
        path: FilePath,
        git_common_directory: Option<FilePath>,
        outcome: RepositoryOutcome,
        reason_code: ReasonCode,
        message: Option<String>,
    },
    DiscoveryFailure {
        schema_version: u32,
        path: FilePath,
        reason_code: ReasonCode,
        message: String,
    },
    Worktree {
        schema_version: u32,
        repository: FilePath,
        path: FilePath,
        outcome: WorktreeOutcome,
        reason_code: ReasonCode,
        /// True when the outcome or reason differs from the last completed run.
        classification_changed: bool,
        message: Option<String>,
    },
    Summary { summary: Summary },
}

/// The content of a [`Event`].
#[allow(inconsistent_fields)]
pub enum EventView {
    RunStarted { schema_version: u32, tool_version: Seq<char>, command: CommandName, apply: bool },
    Repository {
        schema_version: u32,
        path: Seq<u8>,
        git_common_directory: Option<Seq<u8>>,
        outcome: RepositoryOutcome,
        reason_code: ReasonCode,
        message: Option<Seq<char>>,
    },
    DiscoveryFailure {
        schema_version: u32,
        path: Seq<u8>,
        reason_code: ReasonCode,
        message: Seq<char>,
    },
    Worktree {
        schema_version: u32,
        repository: Seq<u8>,
        path: Seq<u8>,
        outcome: WorktreeOutcome,
        reason_code: ReasonCode,
        classification_changed: bool,
        message: Option<Seq<char>>,
    },
    Summary { summary: Summary },
}

impl DeepView for Event {
    type V = EventView;

    open spec fn deep_view(&self) -> EventView {
        match self {
            Event::RunStarted {
                schema_version,
                tool_version,
                command,
                apply,
            } => EventView::RunStarted {
                schema_version: *schema_version,
                tool_version: tool_version@,
                command: *command,
                apply: *apply,
            },
            Event::Repository {
                schema_version,
                path,
                git_common_directory,
                outcome,
                reason_code,
                message,
            } => EventView::Repository {
                schema_version: *schema_version,
                path: path@,
                git_common_directory: git_common_directory.deep_view(),
                outcome: *outcome,
                reason_code: *reason_code,
                message: message.deep_view(),
            },
            Event::DiscoveryFailure {
                schema_version,
                path,
                reason_code,
                message,
            } => EventView::DiscoveryFailure {
                schema_version: *schema_version,
                path: path@,
                reason_code: *reason_code,
                message: message@,
            },
            Event::Worktree {
                schema_version,
                repository,
                path,
                outcome,
                reason_code,
                classification_changed,
                message,
            } => EventView::Worktree {
                schema_version: *schema_version,
                repository: repository@,
                path: path@,
                outcome: *outcome,
                reason_code: *reason_code,
                classification_changed: *classification_changed,
                message: message.deep_view(),
            },
            Event::Summary { summary } => EventView::Summary { summary: *summary },
        }
    }
}

impl Event {
    /// The record that holds the totals of a run.
    pub fn summary(summary: &Summary) -> (event: Event)
        ensures
            event.deep_view() == (EventView::Summary { summary: *summary }),
    {
        Event::Summary { summary: *summary }
    }
}

/// The code of the character at a position, or 0 behind the end.
spec fn letter(name: Seq<char>, at: int) -> int {
    if at < name.len() {
        name[at] as int
    } else {
        0
    }
}

/// A number that tells the names of outcomes apart.
spec fn outcome_number(name: Seq<char>) -> int {
    name.len() + 1000 * letter(name, 2)
}

/// The number of the name of each of the outcomes.
spec fn outcome_code(value: WorktreeOutcome) -> int {
    match value {
        WorktreeOutcome::Retained => 116008,
        WorktreeOutcome::Candidate => 110009,
        WorktreeOutcome::Skipped => 105007,
        WorktreeOutcome::Removed => 109007,
        WorktreeOutcome::Refused => 102007,
        WorktreeOutcome::Malformed => 108009,
    }
}

proof fn lemma_outcome_code(value: WorktreeOutcome)
    ensures
        outcome_number(outcome_name(value)) == outcome_code(value),
{
    match value {
        WorktreeOutcome::Retained => reveal_strlit("retained"),
        WorktreeOutcome::Candidate => reveal_strlit("candidate"),
        WorktreeOutcome::Skipped => reveal_strlit("skipped"),
        WorktreeOutcome::Removed => reveal_strlit("removed"),
        WorktreeOutcome::Refused => reveal_strlit("refused"),
        WorktreeOutcome::Malformed => reveal_strlit("malformed"),
    }
}

/// No two outcomes have the same name.
pub proof fn law_outcome_names_are_distinct(left: WorktreeOutcome, right: WorktreeOutcome)
    ensures
        outcome_name(left) == outcome_name(right) <==> left == right,
{
    lemma_outcome_code(left);
    lemma_outcome_code(right);
}

/// A number that tells the names of reasons apart.
spec fn reason_number(name: Seq<char>) -> int {
    name.len() + 1000 * letter(name, 0) + 1000000 * letter(name, 12) + 1000000000 * letter(name, 22)
}

/// The number of the name of each of the reasons.
spec fn reason_code(value: ReasonCode) -> int {
    match value {
        ReasonCode::Okay => 111002,
        ReasonCode::InaccessibleRoot => 95105017,
        ReasonCode::InaccessibleDirectory => 95105022,
        ReasonCode::UnsafeCanonicalization => 110105117023,
        ReasonCode::FetchFailed => 102012,
        ReasonCode::FetchTimedOut => 111102015,
        ReasonCode::InvalidGitMetadata => 109105020,
        ReasonCode::MalformedPorcelain => 114109019,
        ReasonCode::MainWorktree => 101109013,
        ReasonCode::UpstreamExists => 115117015,
        ReasonCode::NoUpstream => 110011,
        ReasonCode::DetachedWorktree => 107100017,
        ReasonCode::DanglingSymbolicHead => 98100022,
        ReasonCode::PrunableWorktree => 107112017,
        ReasonCode::LockedWorktree => 114108015,
        ReasonCode::UpstreamMissing => 115117016,
        ReasonCode::IntegratedSameCommit => 97105022,
        ReasonCode::IntegratedAncestor => 110105019,
        ReasonCode::IntegratedNoAddedChanges => 97111105027,
        ReasonCode::IntegratedTreesMatch => 114105022,
        ReasonCode::IntegratedMergeAddsNothing => 110101105029,
        ReasonCode::IntegratedPatchIdMatch => 116097105025,
        ReasonCode::NotIntegrated => 101110014,
        ReasonCode::IntegrationIndeterminate => 97105105025,
        ReasonCode::DefaultBranchUnresolved => 118099100025,
        ReasonCode::WorktrunkFailed => 105119016,
        ReasonCode::DirtyWorktree => 101100014,
        ReasonCode::CheckedOutMultipleTimes => 105109099026,
        ReasonCode::ProcessUsingWorktree => 103112022,
        ReasonCode::HerdrFocusedPane => 100104018,
        ReasonCode::HerdrActiveAgent => 95104018,
        ReasonCode::HerdrCoordinationPending => 100110104026,
        ReasonCode::HerdrStaleWorkspacePending => 112119104029,
        ReasonCode::HerdrStaleWorkspaceRetired => 114119104029,
        ReasonCode::HerdrStaleWorkspaceFailed => 102119104028,
        ReasonCode::HerdrInspectionFailed => 100116104023,
        ReasonCode::SafetyInspectionFailed => 101099115024,
        ReasonCode::WorktreeMissing => 115119016,
        ReasonCode::WorktreeChanged => 110119016,
        ReasonCode::RemovalNotConfirmed => 99114021,
        ReasonCode::RemovalFailed => 101114014,
        ReasonCode::HerdrCleanupFailed => 112104020,
        ReasonCode::HerdrRetirementFailed => 100109104023,
        ReasonCode::BranchDeleted => 101098014,
        ReasonCode::BranchDeletionNotAttempted => 116105098029,
        ReasonCode::BranchRetainedUnmerged => 101110098024,
        ReasonCode::BranchRetainedRaced => 110098021,
        ReasonCode::BranchRetainedCheckedOut => 100110098027,
        ReasonCode::BranchDeletionFailed => 105098022,
    }
}

proof fn lemma_reason_code(value: ReasonCode)
    ensures
        reason_number(reason_name(value)) == reason_code(value),
{
    match value {
        ReasonCode::Okay => reveal_strlit("ok"),
        ReasonCode::InaccessibleRoot => reveal_strlit("inaccessible_root"),
        ReasonCode::InaccessibleDirectory => reveal_strlit("inaccessible_directory"),
        ReasonCode::UnsafeCanonicalization => reveal_strlit("unsafe_canonicalization"),
        ReasonCode::FetchFailed => reveal_strlit("fetch_failed"),
        ReasonCode::FetchTimedOut => reveal_strlit("fetch_timed_out"),
        ReasonCode::InvalidGitMetadata => reveal_strlit("invalid_git_metadata"),
        ReasonCode::MalformedPorcelain => reveal_strlit("malformed_porcelain"),
        ReasonCode::MainWorktree => reveal_strlit("main_worktree"),
        ReasonCode::UpstreamExists => reveal_strlit("upstream_exists"),
        ReasonCode::NoUpstream => reveal_strlit("no_upstream"),
        ReasonCode::DetachedWorktree => reveal_strlit("detached_worktree"),
        ReasonCode::DanglingSymbolicHead => reveal_strlit("dangling_symbolic_head"),
        ReasonCode::PrunableWorktree => reveal_strlit("prunable_worktree"),
        ReasonCode::LockedWorktree => reveal_strlit("locked_worktree"),
        ReasonCode::UpstreamMissing => reveal_strlit("upstream_missing"),
        ReasonCode::IntegratedSameCommit => reveal_strlit("integrated_same_commit"),
        ReasonCode::IntegratedAncestor => reveal_strlit("integrated_ancestor"),
        ReasonCode::IntegratedNoAddedChanges => reveal_strlit("integrated_no_added_changes"),
        ReasonCode::IntegratedTreesMatch => reveal_strlit("integrated_trees_match"),
        ReasonCode::IntegratedMergeAddsNothing => reveal_strlit("integrated_merge_adds_nothing"),
        ReasonCode::IntegratedPatchIdMatch => reveal_strlit("integrated_patch_id_match"),
        ReasonCode::NotIntegrated => reveal_strlit("not_integrated"),
        ReasonCode::IntegrationIndeterminate => reveal_strlit("integration_indeterminate"),
        ReasonCode::DefaultBranchUnresolved => reveal_strlit("default_branch_unresolved"),
        ReasonCode::WorktrunkFailed => reveal_strlit("worktrunk_failed"),
        ReasonCode::DirtyWorktree => reveal_strlit("dirty_worktree"),
        ReasonCode::CheckedOutMultipleTimes => reveal_strlit("checked_out_multiple_times"),
        ReasonCode::ProcessUsingWorktree => reveal_strlit("process_using_worktree"),
        ReasonCode::HerdrFocusedPane => reveal_strlit("herdr_focused_pane"),
        ReasonCode::HerdrActiveAgent => reveal_strlit("herdr_active_agent"),
        ReasonCode::HerdrCoordinationPending => reveal_strlit("herdr_coordination_pending"),
        ReasonCode::HerdrStaleWorkspacePending => reveal_strlit("herdr_stale_workspace_pending"),
        ReasonCode::HerdrStaleWorkspaceRetired => reveal_strlit("herdr_stale_workspace_retired"),
        ReasonCode::HerdrStaleWorkspaceFailed => reveal_strlit("herdr_stale_workspace_failed"),
        ReasonCode::HerdrInspectionFailed => reveal_strlit("herdr_inspection_failed"),
        ReasonCode::SafetyInspectionFailed => reveal_strlit("safety_inspection_failed"),
        ReasonCode::WorktreeMissing => reveal_strlit("worktree_missing"),
        ReasonCode::WorktreeChanged => reveal_strlit("worktree_changed"),
        ReasonCode::RemovalNotConfirmed => reveal_strlit("removal_not_confirmed"),
        ReasonCode::RemovalFailed => reveal_strlit("removal_failed"),
        ReasonCode::HerdrCleanupFailed => reveal_strlit("herdr_cleanup_failed"),
        ReasonCode::HerdrRetirementFailed => reveal_strlit("herdr_retirement_failed"),
        ReasonCode::BranchDeleted => reveal_strlit("branch_deleted"),
        ReasonCode::BranchDeletionNotAttempted => reveal_strlit("branch_deletion_not_attempted"),
        ReasonCode::BranchRetainedUnmerged => reveal_strlit("branch_retained_unmerged"),
        ReasonCode::BranchRetainedRaced => reveal_strlit("branch_retained_raced"),
        ReasonCode::BranchRetainedCheckedOut => reveal_strlit("branch_retained_checked_out"),
        ReasonCode::BranchDeletionFailed => reveal_strlit("branch_deletion_failed"),
    }
}

/// No two reasons have the same name.
pub proof fn law_reason_names_are_distinct(left: ReasonCode, right: ReasonCode)
    ensures
        reason_name(left) == reason_name(right) <==> left == right,
{
    lemma_reason_code(left);
    lemma_reason_code(right);
}

} // verus!
