//! What is done with a worktree, and what is done with a Herdr workspace whose checkout is gone.
pub mod laws;
pub mod model;

use crate::cleanup;
use crate::cleanup::{BranchOutcome, RemovalError, RemovalErrorView, RemovalResult};
use crate::cleanup::{RemovalResultView, SafetyRefusal, SafetyRefusalView};
use crate::command::{Reply, ReplyView};
use crate::discovery::DiscoveryIssueKind;
use crate::filepath;
use crate::filepath::FilePath;
use crate::flow;
use crate::flow::{Flow, Step};
use crate::herdr;
use crate::herdr::StaleWorkspaceView;
use crate::herdr::{CandidateStatus, CandidateStatusView, Coordination, CoordinationView};
use crate::herdr::{StaleWorkspace, StaleWorkspaceStatus, StaleWorkspaceStatusView};
use crate::inspection::WorktreeInspectionView;
use crate::inspection::{RepositoryInspectionOutcome, WorktreeClassification, WorktreeInspection};
use crate::output;
use crate::output::{ReasonCode, RepositoryOutcome, Summary, WorktreeOutcome};
use crate::text;
use vstd::prelude::*;

verus! {

/// What was decided about a worktree.
#[derive(Debug, PartialEq, Eq)]
pub struct WorktreeDecision {
    pub outcome: WorktreeOutcome,
    pub reason_code: ReasonCode,
    pub message: Option<String>,
    /// Whether something failed on the way.
    pub failed: bool,
}

/// The content of a [`WorktreeDecision`].
pub struct WorktreeDecisionView {
    pub outcome: WorktreeOutcome,
    pub reason_code: ReasonCode,
    pub message: Option<Seq<char>>,
    pub failed: bool,
}

impl DeepView for WorktreeDecision {
    type V = WorktreeDecisionView;

    open spec fn deep_view(&self) -> WorktreeDecisionView {
        WorktreeDecisionView {
            outcome: self.outcome,
            reason_code: self.reason_code,
            message: self.message.deep_view(),
            failed: self.failed,
        }
    }
}

impl Clone for WorktreeDecision {
    fn clone(&self) -> (copy: Self)
        ensures
            copy.deep_view() == self.deep_view(),
    {
        WorktreeDecision {
            outcome: self.outcome,
            reason_code: self.reason_code,
            message: text::clone_optional(&self.message),
            failed: self.failed,
        }
    }
}

/// How the inspection of a repository is reported.
pub open spec fn repository_report(outcome: RepositoryInspectionOutcome) -> (
    RepositoryOutcome,
    ReasonCode,
) {
    match outcome {
        RepositoryInspectionOutcome::Inspected => (RepositoryOutcome::Inspected, ReasonCode::Okay),
        RepositoryInspectionOutcome::FetchFailed => (
            RepositoryOutcome::FetchFailed,
            ReasonCode::FetchFailed,
        ),
        RepositoryInspectionOutcome::FetchTimedOut => (
            RepositoryOutcome::FetchTimedOut,
            ReasonCode::FetchTimedOut,
        ),
        RepositoryInspectionOutcome::MalformedPorcelain => (
            RepositoryOutcome::Malformed,
            ReasonCode::MalformedPorcelain,
        ),
        RepositoryInspectionOutcome::IntegrationFailed => (
            RepositoryOutcome::IntegrationFailed,
            ReasonCode::WorktrunkFailed,
        ),
        RepositoryInspectionOutcome::InspectionFailed => (
            RepositoryOutcome::Malformed,
            ReasonCode::InvalidGitMetadata,
        ),
    }
}

/// How the inspection of a repository is reported.
pub fn repository_result(outcome: RepositoryInspectionOutcome) -> (report: (
    RepositoryOutcome,
    ReasonCode,
))
    ensures
        report == repository_report(outcome),
{
    match outcome {
        RepositoryInspectionOutcome::Inspected => (RepositoryOutcome::Inspected, ReasonCode::Okay),
        RepositoryInspectionOutcome::FetchFailed => (
            RepositoryOutcome::FetchFailed,
            ReasonCode::FetchFailed,
        ),
        RepositoryInspectionOutcome::FetchTimedOut => (
            RepositoryOutcome::FetchTimedOut,
            ReasonCode::FetchTimedOut,
        ),
        RepositoryInspectionOutcome::MalformedPorcelain => (
            RepositoryOutcome::Malformed,
            ReasonCode::MalformedPorcelain,
        ),
        RepositoryInspectionOutcome::IntegrationFailed => (
            RepositoryOutcome::IntegrationFailed,
            ReasonCode::WorktrunkFailed,
        ),
        RepositoryInspectionOutcome::InspectionFailed => (
            RepositoryOutcome::Malformed,
            ReasonCode::InvalidGitMetadata,
        ),
    }
}

/// The outcome and the reason that a classification stands for.
pub open spec fn worktree_report(classification: WorktreeClassification) -> (
    WorktreeOutcome,
    ReasonCode,
) {
    match classification {
        WorktreeClassification::MainWorktree => (
            WorktreeOutcome::Retained,
            ReasonCode::MainWorktree,
        ),
        WorktreeClassification::UpstreamExists => (
            WorktreeOutcome::Retained,
            ReasonCode::UpstreamExists,
        ),
        WorktreeClassification::NoUpstream => (
            WorktreeOutcome::Skipped,
            ReasonCode::NoUpstream,
        ),
        WorktreeClassification::DetachedWorktree => (
            WorktreeOutcome::Skipped,
            ReasonCode::DetachedWorktree,
        ),
        WorktreeClassification::DanglingSymbolicHead => (
            WorktreeOutcome::Malformed,
            ReasonCode::DanglingSymbolicHead,
        ),
        WorktreeClassification::PrunableWorktree => (
            WorktreeOutcome::Malformed,
            ReasonCode::PrunableWorktree,
        ),
        WorktreeClassification::LockedWorktree => (
            WorktreeOutcome::Refused,
            ReasonCode::LockedWorktree,
        ),
        WorktreeClassification::UpstreamMissing => (
            WorktreeOutcome::Retained,
            ReasonCode::UpstreamMissing,
        ),
        WorktreeClassification::IntegratedSameCommit => (
            WorktreeOutcome::Candidate,
            ReasonCode::IntegratedSameCommit,
        ),
        WorktreeClassification::IntegratedAncestor => (
            WorktreeOutcome::Candidate,
            ReasonCode::IntegratedAncestor,
        ),
        WorktreeClassification::IntegratedNoAddedChanges => (
            WorktreeOutcome::Candidate,
            ReasonCode::IntegratedNoAddedChanges,
        ),
        WorktreeClassification::IntegratedTreesMatch => (
            WorktreeOutcome::Candidate,
            ReasonCode::IntegratedTreesMatch,
        ),
        WorktreeClassification::IntegratedMergeAddsNothing => (
            WorktreeOutcome::Candidate,
            ReasonCode::IntegratedMergeAddsNothing,
        ),
        WorktreeClassification::IntegratedPatchIdMatch => (
            WorktreeOutcome::Candidate,
            ReasonCode::IntegratedPatchIdMatch,
        ),
        WorktreeClassification::NotIntegrated => (
            WorktreeOutcome::Retained,
            ReasonCode::NotIntegrated,
        ),
        WorktreeClassification::IntegrationIndeterminate => (
            WorktreeOutcome::Retained,
            ReasonCode::IntegrationIndeterminate,
        ),
        WorktreeClassification::DefaultBranchUnresolved => (
            WorktreeOutcome::Retained,
            ReasonCode::DefaultBranchUnresolved,
        ),
        WorktreeClassification::WorktrunkFailed => (
            WorktreeOutcome::Retained,
            ReasonCode::WorktrunkFailed,
        ),
        WorktreeClassification::FetchFailed => (
            WorktreeOutcome::Skipped,
            ReasonCode::FetchFailed,
        ),
        WorktreeClassification::FetchTimedOut => (
            WorktreeOutcome::Skipped,
            ReasonCode::FetchTimedOut,
        ),
        WorktreeClassification::Malformed => (
            WorktreeOutcome::Malformed,
            ReasonCode::InvalidGitMetadata,
        ),
    }
}

/// The outcome and the reason that a classification stands for.
pub fn worktree_result(classification: WorktreeClassification) -> (report: (
    WorktreeOutcome,
    ReasonCode,
))
    ensures
        report == worktree_report(classification),
{
    match classification {
        WorktreeClassification::MainWorktree => (
            WorktreeOutcome::Retained,
            ReasonCode::MainWorktree,
        ),
        WorktreeClassification::UpstreamExists => (
            WorktreeOutcome::Retained,
            ReasonCode::UpstreamExists,
        ),
        WorktreeClassification::NoUpstream => (
            WorktreeOutcome::Skipped,
            ReasonCode::NoUpstream,
        ),
        WorktreeClassification::DetachedWorktree => (
            WorktreeOutcome::Skipped,
            ReasonCode::DetachedWorktree,
        ),
        WorktreeClassification::DanglingSymbolicHead => (
            WorktreeOutcome::Malformed,
            ReasonCode::DanglingSymbolicHead,
        ),
        WorktreeClassification::PrunableWorktree => (
            WorktreeOutcome::Malformed,
            ReasonCode::PrunableWorktree,
        ),
        WorktreeClassification::LockedWorktree => (
            WorktreeOutcome::Refused,
            ReasonCode::LockedWorktree,
        ),
        WorktreeClassification::UpstreamMissing => (
            WorktreeOutcome::Retained,
            ReasonCode::UpstreamMissing,
        ),
        WorktreeClassification::IntegratedSameCommit => (
            WorktreeOutcome::Candidate,
            ReasonCode::IntegratedSameCommit,
        ),
        WorktreeClassification::IntegratedAncestor => (
            WorktreeOutcome::Candidate,
            ReasonCode::IntegratedAncestor,
        ),
        WorktreeClassification::IntegratedNoAddedChanges => (
            WorktreeOutcome::Candidate,
            ReasonCode::IntegratedNoAddedChanges,
        ),
        WorktreeClassification::IntegratedTreesMatch => (
            WorktreeOutcome::Candidate,
            ReasonCode::IntegratedTreesMatch,
        ),
        WorktreeClassification::IntegratedMergeAddsNothing => (
            WorktreeOutcome::Candidate,
            ReasonCode::IntegratedMergeAddsNothing,
        ),
        WorktreeClassification::IntegratedPatchIdMatch => (
            WorktreeOutcome::Candidate,
            ReasonCode::IntegratedPatchIdMatch,
        ),
        WorktreeClassification::NotIntegrated => (
            WorktreeOutcome::Retained,
            ReasonCode::NotIntegrated,
        ),
        WorktreeClassification::IntegrationIndeterminate => (
            WorktreeOutcome::Retained,
            ReasonCode::IntegrationIndeterminate,
        ),
        WorktreeClassification::DefaultBranchUnresolved => (
            WorktreeOutcome::Retained,
            ReasonCode::DefaultBranchUnresolved,
        ),
        WorktreeClassification::WorktrunkFailed => (
            WorktreeOutcome::Retained,
            ReasonCode::WorktrunkFailed,
        ),
        WorktreeClassification::FetchFailed => (
            WorktreeOutcome::Skipped,
            ReasonCode::FetchFailed,
        ),
        WorktreeClassification::FetchTimedOut => (
            WorktreeOutcome::Skipped,
            ReasonCode::FetchTimedOut,
        ),
        WorktreeClassification::Malformed => (
            WorktreeOutcome::Malformed,
            ReasonCode::InvalidGitMetadata,
        ),
    }
}

/// The reason that the fate of the branch of a removed worktree stands for.
pub open spec fn branch_reason(outcome: BranchOutcome) -> ReasonCode {
    match outcome {
        BranchOutcome::Deleted => ReasonCode::BranchDeleted,
        BranchOutcome::NotAttempted => ReasonCode::BranchDeletionNotAttempted,
        BranchOutcome::Deferred => ReasonCode::BranchDeletionNotAttempted,
        BranchOutcome::RetainedUnmerged => ReasonCode::BranchRetainedUnmerged,
        BranchOutcome::RetainedCheckedOut => ReasonCode::BranchRetainedCheckedOut,
        BranchOutcome::RetainedRaced => ReasonCode::BranchRetainedRaced,
        BranchOutcome::RetainedFailed => ReasonCode::BranchDeletionFailed,
    }
}

/// The reason that the fate of the branch of a removed worktree stands for.
pub fn branch_outcome_reason(outcome: BranchOutcome) -> (reason: ReasonCode)
    ensures
        reason == branch_reason(outcome),
{
    match outcome {
        BranchOutcome::Deleted => ReasonCode::BranchDeleted,
        BranchOutcome::NotAttempted => ReasonCode::BranchDeletionNotAttempted,
        BranchOutcome::Deferred => ReasonCode::BranchDeletionNotAttempted,
        BranchOutcome::RetainedUnmerged => ReasonCode::BranchRetainedUnmerged,
        BranchOutcome::RetainedCheckedOut => ReasonCode::BranchRetainedCheckedOut,
        BranchOutcome::RetainedRaced => ReasonCode::BranchRetainedRaced,
        BranchOutcome::RetainedFailed => ReasonCode::BranchDeletionFailed,
    }
}

/// The reason that a problem in discovery stands for.
pub open spec fn issue_reason(kind: DiscoveryIssueKind) -> ReasonCode {
    match kind {
        DiscoveryIssueKind::InaccessibleRoot => ReasonCode::InaccessibleRoot,
        DiscoveryIssueKind::InaccessibleDirectory => ReasonCode::InaccessibleDirectory,
        DiscoveryIssueKind::UnsafeCanonicalization => ReasonCode::UnsafeCanonicalization,
        DiscoveryIssueKind::InvalidGitMetadata => ReasonCode::InvalidGitMetadata,
    }
}

/// The reason that a problem in discovery stands for.
pub fn reason_code(kind: DiscoveryIssueKind) -> (reason: ReasonCode)
    ensures
        reason == issue_reason(kind),
{
    match kind {
        DiscoveryIssueKind::InaccessibleRoot => ReasonCode::InaccessibleRoot,
        DiscoveryIssueKind::InaccessibleDirectory => ReasonCode::InaccessibleDirectory,
        DiscoveryIssueKind::UnsafeCanonicalization => ReasonCode::UnsafeCanonicalization,
        DiscoveryIssueKind::InvalidGitMetadata => ReasonCode::InvalidGitMetadata,
    }
}

/// A decision without a message, about which nothing failed.
pub open spec fn plain_decision(
    outcome: WorktreeOutcome,
    reason_code: ReasonCode,
) -> WorktreeDecisionView {
    WorktreeDecisionView { outcome, reason_code, message: None, failed: false }
}

/// A refusal with a message.
pub open spec fn refused(
    reason_code: ReasonCode,
    message: Seq<char>,
    failed: bool,
) -> WorktreeDecisionView {
    WorktreeDecisionView {
        outcome: WorktreeOutcome::Refused,
        reason_code,
        message: Some(message),
        failed,
    }
}

fn new_refused(
    reason_code: ReasonCode,
    message: String,
    failed: bool,
) -> (decision: WorktreeDecision)
    ensures
        decision.deep_view() == refused(reason_code, message@, failed),
{
    WorktreeDecision {
        outcome: WorktreeOutcome::Refused,
        reason_code,
        message: Some(message),
        failed,
    }
}

/// The decision that a safety refusal leads to.
pub open spec fn safety_decision(refusal: SafetyRefusalView) -> WorktreeDecisionView {
    refused(refusal.reason_code, refusal.message, refusal.operational_failure)
}

fn apply_safety_refusal(refusal: SafetyRefusal) -> (decision: WorktreeDecision)
    ensures
        decision.deep_view() == safety_decision(refusal.deep_view()),
{
    new_refused(refusal.reason_code, refusal.message, refusal.operational_failure)
}

/// The decision that a removal leads to.
pub open spec fn removal_decision(
    result: Result<RemovalResultView, RemovalErrorView>,
) -> WorktreeDecisionView {
    match result {
        Ok(removal) => WorktreeDecisionView {
            outcome: WorktreeOutcome::Removed,
            reason_code: branch_reason(removal.branch_outcome),
            message: match removal.branch_checked_out_at {
                None => None,
                Some(path) => Some("branch is also checked out at "@ + text::lossy_text(path)),
            },
            failed: removal.branch_outcome is RetainedFailed,
        },
        Err(error) => refused(
            ReasonCode::RemovalFailed,
            cleanup::removal_message(error),
            true,
        ),
    }
}

/// The decision that a removal leads to.
pub fn apply_removal(result: Result<RemovalResult, RemovalError>) -> (decision: WorktreeDecision)
    ensures
        decision.deep_view() == removal_decision(flow::result_view(result)),
{
    match result {
        Ok(removal) => {
            let message = match &removal.branch_checked_out_at {
                None => None,
                Some(path) => {
                    let shown = path.display();
                    Some(text::concat2("branch is also checked out at ", shown.as_str()))
                },
            };
            WorktreeDecision {
                outcome: WorktreeOutcome::Removed,
                reason_code: branch_outcome_reason(removal.branch_outcome),
                message,
                failed: removal.branch_outcome == BranchOutcome::RetainedFailed,
            }
        },
        Err(error) => new_refused(ReasonCode::RemovalFailed, error.message(), true),
    }
}

/// The decision that a focused pane or an active agent leads to.
pub open spec fn veto_decision(status: CandidateStatusView) -> WorktreeDecisionView {
    match status {
        CandidateStatusView::FocusedPane { pane_id } => refused(
            ReasonCode::HerdrFocusedPane,
            "Herdr pane "@ + pane_id + " is focused in the worktree"@,
            false,
        ),
        CandidateStatusView::ActiveAgent { pane_id } => refused(
            ReasonCode::HerdrActiveAgent,
            "Herdr pane "@ + pane_id + " contains an active agent"@,
            false,
        ),
        _ => refused(ReasonCode::HerdrInspectionFailed, "Herdr is unavailable"@, true),
    }
}

/// The second look at Herdr and the last check, once all workspaces are retired; only if both
/// find nothing is the removal to go on.
pub open spec fn recheck_flow(
    repository: Seq<u8>,
    worktree: WorktreeInspectionView,
    check_processes: bool,
    timeout: u64,
    replies: Seq<ReplyView>,
    at: int,
) -> Flow<Result<(), WorktreeDecisionView>> {
    match herdr::inspect_candidate_flow(worktree.path, timeout, replies, at) {
        Flow::Ask(request) => Flow::Ask(request),
        Flow::Done(Err(error), next) => Flow::Done(
            Err(
                refused(ReasonCode::HerdrInspectionFailed, herdr::inspection_message(error), true),
            ),
            next,
        ),
        Flow::Done(Ok(CandidateStatusView::Unavailable), next) => Flow::Done(
            Err(
                refused(
                    ReasonCode::HerdrInspectionFailed,
                    "Herdr became unavailable while rechecking retired workspaces"@,
                    true,
                ),
            ),
            next,
        ),
        Flow::Done(Ok(CandidateStatusView::Clear(coordination)), next) => {
            if coordination.workspaces.len() > 0 {
                Flow::Done(
                    Err(
                        refused(
                            ReasonCode::HerdrRetirementFailed,
                            text::decimal_text(coordination.workspaces.len())
                                + " candidate Herdr workspace(s) remain after retirement"@,
                            true,
                        ),
                    ),
                    next,
                )
            } else {
                final_check_flow(repository, worktree, check_processes, timeout, replies, next)
            }
        },
        Flow::Done(Ok(status), next) => Flow::Done(Err(veto_decision(status)), next),
    }
}

/// The last check before a removal: every process counts in it.
pub open spec fn final_check_flow(
    repository: Seq<u8>,
    worktree: WorktreeInspectionView,
    check_processes: bool,
    timeout: u64,
    replies: Seq<ReplyView>,
    at: int,
) -> Flow<Result<(), WorktreeDecisionView>> {
    match cleanup::check_flow(
        repository,
        worktree,
        check_processes,
        timeout,
        Seq::empty(),
        replies,
        at,
    ) {
        Flow::Ask(request) => Flow::Ask(request),
        Flow::Done(Err(refusal), next) => Flow::Done(Err(safety_decision(refusal)), next),
        Flow::Done(Ok(()), next) => Flow::Done(Ok(()), next),
    }
}

fn final_check(
    repository: &FilePath,
    worktree: &WorktreeInspection,
    check_processes: bool,
    timeout: u64,
    replies: &Vec<Reply>,
    at: usize,
) -> (step: Step<Result<(), WorktreeDecision>>)
    ensures
        flow::step_view(step) == final_check_flow(
            repository@,
            worktree.deep_view(),
            check_processes,
            timeout,
            replies.deep_view(),
            at as int,
        ),
{
    match cleanup::check_candidate(repository, worktree, check_processes, timeout, replies, at) {
        Step::Ask(request) => Step::Ask(request),
        Step::Done(Err(refusal), next) => Step::Done(Err(apply_safety_refusal(refusal)), next),
        Step::Done(Ok(()), next) => Step::Done(Ok(()), next),
    }
}

fn new_veto(status: CandidateStatus) -> (decision: WorktreeDecision)
    ensures
        decision.deep_view() == veto_decision(status.deep_view()),
{
    match status {
        CandidateStatus::FocusedPane { pane_id } => new_refused(
            ReasonCode::HerdrFocusedPane,
            text::concat3("Herdr pane ", pane_id.as_str(), " is focused in the worktree"),
            false,
        ),
        CandidateStatus::ActiveAgent { pane_id } => new_refused(
            ReasonCode::HerdrActiveAgent,
            text::concat3("Herdr pane ", pane_id.as_str(), " contains an active agent"),
            false,
        ),
        _ => new_refused(
            ReasonCode::HerdrInspectionFailed,
            "Herdr is unavailable".to_owned(),
            true,
        ),
    }
}

fn recheck_after_coordination(
    repository: &FilePath,
    worktree: &WorktreeInspection,
    check_processes: bool,
    timeout: u64,
    replies: &Vec<Reply>,
    at: usize,
) -> (step: Step<Result<(), WorktreeDecision>>)
    ensures
        flow::step_view(step) == recheck_flow(
            repository@,
            worktree.deep_view(),
            check_processes,
            timeout,
            replies.deep_view(),
            at as int,
        ),
{
    match herdr::inspect_candidate(&worktree.path, timeout, replies, at) {
        Step::Ask(request) => Step::Ask(request),
        Step::Done(Err(error), next) => Step::Done(
            Err(new_refused(ReasonCode::HerdrInspectionFailed, error.message(), true)),
            next,
        ),
        Step::Done(Ok(CandidateStatus::Unavailable), next) => Step::Done(
            Err(
                new_refused(
                    ReasonCode::HerdrInspectionFailed,
                    "Herdr became unavailable while rechecking retired workspaces".to_owned(),
                    true,
                ),
            ),
            next,
        ),
        Step::Done(Ok(CandidateStatus::Clear(coordination)), next) => {
            if coordination.requires_retirement() {
                let count = text::decimal(coordination.workspace_count() as u64);
                return Step::Done(
                    Err(
                        new_refused(
                            ReasonCode::HerdrRetirementFailed,
                            text::concat2(
                                count.as_str(),
                                " candidate Herdr workspace(s) remain after retirement",
                            ),
                            true,
                        ),
                    ),
                    next,
                );
            }
            final_check(repository, worktree, check_processes, timeout, replies, next)
        },
        Step::Done(Ok(status), next) => Step::Done(Err(new_veto(status)), next),
    }
}

/// What a candidate leads to that Herdr has nothing against, once its workspaces are retired.
pub open spec fn coordinate_flow(
    repository: Seq<u8>,
    worktree: WorktreeInspectionView,
    coordination: CoordinationView,
    check_processes: bool,
    timeout: u64,
    apply: bool,
    candidate: WorktreeDecisionView,
    replies: Seq<ReplyView>,
    at: int,
) -> Flow<Result<(), WorktreeDecisionView>> {
    match cleanup::check_flow(
        repository,
        worktree,
        check_processes,
        timeout,
        coordination.processes,
        replies,
        at,
    ) {
        Flow::Ask(request) => Flow::Ask(request),
        Flow::Done(Err(refusal), next) => Flow::Done(Err(safety_decision(refusal)), next),
        Flow::Done(Ok(()), next) => if !apply {
            Flow::Done(
                Err(
                    if coordination.workspaces.len() > 0 {
                        WorktreeDecisionView {
                            reason_code: ReasonCode::HerdrCoordinationPending,
                            message: Some(
                                text::decimal_text(coordination.workspaces.len())
                                    + " idle Herdr workspace(s) must be retired before removal"@,
                            ),
                            ..candidate
                        }
                    } else {
                        candidate
                    },
                ),
                next,
            )
        } else if coordination.workspaces.len() == 0 {
            recheck_flow(repository, worktree, check_processes, timeout, replies, next)
        } else {
            match herdr::retirement::retire_flow(
                coordination.session,
                coordination.workspaces,
                0,
                Seq::empty(),
                timeout,
                replies,
                next,
            ) {
                Flow::Ask(request) => Flow::Ask(request),
                Flow::Done(Err(error), next) => Flow::Done(
                    Err(
                        refused(
                            ReasonCode::HerdrRetirementFailed,
                            herdr::retirement_message(error),
                            true,
                        ),
                    ),
                    next,
                ),
                Flow::Done(Ok(()), next) => recheck_flow(
                    repository,
                    worktree,
                    check_processes,
                    timeout,
                    replies,
                    next,
                ),
            }
        },
    }
}

/// The gates before a removal. Success means that the removal is to go on; anything else is the
/// decision itself.
pub open spec fn prepare_flow(
    repository: Seq<u8>,
    worktree: WorktreeInspectionView,
    check_processes: bool,
    timeout: u64,
    apply: bool,
    candidate: WorktreeDecisionView,
    replies: Seq<ReplyView>,
    at: int,
) -> Flow<Result<(), WorktreeDecisionView>> {
    match cleanup::check_flow(repository, worktree, false, timeout, Seq::empty(), replies, at) {
        Flow::Ask(request) => Flow::Ask(request),
        Flow::Done(Err(refusal), next) => Flow::Done(Err(safety_decision(refusal)), next),
        Flow::Done(Ok(()), next) => match herdr::inspect_candidate_flow(
            worktree.path,
            timeout,
            replies,
            next,
        ) {
            Flow::Ask(request) => Flow::Ask(request),
            Flow::Done(Err(error), next) => Flow::Done(
                Err(
                    refused(
                        ReasonCode::HerdrInspectionFailed,
                        herdr::inspection_message(error),
                        true,
                    ),
                ),
                next,
            ),
            Flow::Done(Ok(CandidateStatusView::Unavailable), next) => match final_check_flow(
                repository,
                worktree,
                check_processes,
                timeout,
                replies,
                next,
            ) {
                Flow::Done(Ok(()), next) => Flow::Done(
                    if apply {
                        Ok(())
                    } else {
                        Err(candidate)
                    },
                    next,
                ),
                other => other,
            },
            Flow::Done(Ok(CandidateStatusView::Clear(coordination)), next) => coordinate_flow(
                repository,
                worktree,
                coordination,
                check_processes,
                timeout,
                apply,
                candidate,
                replies,
                next,
            ),
            Flow::Done(Ok(status), next) => Flow::Done(Err(veto_decision(status)), next),
        },
    }
}

fn coordinate(
    repository: &FilePath,
    worktree: &WorktreeInspection,
    coordination: &Coordination,
    check_processes: bool,
    timeout: u64,
    apply: bool,
    candidate: WorktreeDecision,
    replies: &Vec<Reply>,
    at: usize,
) -> (step: Step<Result<(), WorktreeDecision>>)
    ensures
        flow::step_view(step) == coordinate_flow(
            repository@,
            worktree.deep_view(),
            coordination.deep_view(),
            check_processes,
            timeout,
            apply,
            candidate.deep_view(),
            replies.deep_view(),
            at as int,
        ),
{
    let next = match cleanup::check_candidate_ignoring_processes(
        repository,
        worktree,
        check_processes,
        timeout,
        coordination.attributed_processes(),
        replies,
        at,
    ) {
        Step::Ask(request) => return Step::Ask(request),
        Step::Done(Err(refusal), next) => return Step::Done(
            Err(apply_safety_refusal(refusal)),
            next,
        ),
        Step::Done(Ok(()), next) => next,
    };
    if !apply {
        let mut decision = candidate;
        if coordination.requires_retirement() {
            let count = text::decimal(coordination.workspace_count() as u64);
            decision.reason_code = ReasonCode::HerdrCoordinationPending;
            decision.message = Some(
                text::concat2(
                    count.as_str(),
                    " idle Herdr workspace(s) must be retired before removal",
                ),
            );
        }
        return Step::Done(Err(decision), next);
    }
    if !coordination.requires_retirement() {
        return recheck_after_coordination(
            repository,
            worktree,
            check_processes,
            timeout,
            replies,
            next,
        );
    }
    match herdr::retirement::retire_candidate(coordination, timeout, replies, next) {
        Step::Ask(request) => Step::Ask(request),
        Step::Done(Err(error), next) => Step::Done(
            Err(new_refused(ReasonCode::HerdrRetirementFailed, error.message(), true)),
            next,
        ),
        Step::Done(Ok(()), next) => recheck_after_coordination(
            repository,
            worktree,
            check_processes,
            timeout,
            replies,
            next,
        ),
    }
}

fn prepare_candidate(
    repository: &FilePath,
    worktree: &WorktreeInspection,
    check_processes: bool,
    timeout: u64,
    apply: bool,
    candidate: WorktreeDecision,
    replies: &Vec<Reply>,
    at: usize,
) -> (step: Step<Result<(), WorktreeDecision>>)
    ensures
        flow::step_view(step) == prepare_flow(
            repository@,
            worktree.deep_view(),
            check_processes,
            timeout,
            apply,
            candidate.deep_view(),
            replies.deep_view(),
            at as int,
        ),
{
    let next = match cleanup::check_candidate(repository, worktree, false, timeout, replies, at) {
        Step::Ask(request) => return Step::Ask(request),
        Step::Done(Err(refusal), next) => return Step::Done(
            Err(apply_safety_refusal(refusal)),
            next,
        ),
        Step::Done(Ok(()), next) => next,
    };
    match herdr::inspect_candidate(&worktree.path, timeout, replies, next) {
        Step::Ask(request) => Step::Ask(request),
        Step::Done(Err(error), next) => Step::Done(
            Err(new_refused(ReasonCode::HerdrInspectionFailed, error.message(), true)),
            next,
        ),
        Step::Done(Ok(CandidateStatus::Unavailable), next) => match final_check(
            repository,
            worktree,
            check_processes,
            timeout,
            replies,
            next,
        ) {
            Step::Ask(request) => Step::Ask(request),
            Step::Done(Err(decision), next) => Step::Done(Err(decision), next),
            Step::Done(Ok(()), next) => if apply {
                Step::Done(Ok(()), next)
            } else {
                Step::Done(Err(candidate), next)
            },
        },
        Step::Done(Ok(CandidateStatus::Clear(coordination)), next) => coordinate(
            repository,
            worktree,
            &coordination,
            check_processes,
            timeout,
            apply,
            candidate,
            replies,
            next,
        ),
        Step::Done(Ok(status), next) => Step::Done(Err(new_veto(status)), next),
    }
}

/// What is done with a worktree: a candidate goes through the gates, and if it passes them all,
/// and removals are to be applied, it is removed.
pub open spec fn decide_flow(
    repository: Seq<u8>,
    worktree: WorktreeInspectionView,
    check_processes: bool,
    timeout: u64,
    apply: bool,
    replies: Seq<ReplyView>,
    at: int,
) -> Flow<WorktreeDecisionView> {
    let (outcome, reason_code) = worktree_report(worktree.classification);
    let plain = plain_decision(outcome, reason_code);
    if !(outcome is Candidate) {
        Flow::Done(plain, at)
    } else {
        match prepare_flow(
            repository,
            worktree,
            check_processes,
            timeout,
            apply,
            plain,
            replies,
            at,
        ) {
            Flow::Ask(request) => Flow::Ask(request),
            Flow::Done(Err(decision), next) => Flow::Done(decision, next),
            Flow::Done(Ok(()), next) => match cleanup::remove_flow(
                repository,
                worktree.path,
                timeout,
                replies,
                next,
            ) {
                Flow::Ask(request) => Flow::Ask(request),
                Flow::Done(result, next) => Flow::Done(removal_decision(result), next),
            },
        }
    }
}

/// What is done with a worktree.
pub fn decide_worktree(
    repository: &FilePath,
    worktree: &WorktreeInspection,
    check_processes: bool,
    timeout: u64,
    apply: bool,
    replies: &Vec<Reply>,
    at: usize,
) -> (step: Step<WorktreeDecision>)
    ensures
        step.deep_view() == decide_flow(
            repository@,
            worktree.deep_view(),
            check_processes,
            timeout,
            apply,
            replies.deep_view(),
            at as int,
        ),
{
    let (outcome, reason_code) = worktree_result(worktree.classification);
    let plain = WorktreeDecision { outcome, reason_code, message: None, failed: false };
    if outcome != WorktreeOutcome::Candidate {
        return Step::Done(plain, at);
    }
    match prepare_candidate(
        repository,
        worktree,
        check_processes,
        timeout,
        apply,
        plain,
        replies,
        at,
    ) {
        Step::Ask(request) => Step::Ask(request),
        Step::Done(Err(decision), next) => Step::Done(decision, next),
        Step::Done(Ok(()), next) => match cleanup::remove_worktree(
            repository,
            &worktree.path,
            timeout,
            replies,
            next,
        ) {
            Step::Ask(request) => Step::Ask(request),
            Step::Done(result, next) => Step::Done(apply_removal(result), next),
        },
    }
}

/// Whether a stale workspace for the checkout is still there.
pub open spec fn still_stale(stale: Seq<StaleWorkspaceView>, checkout: Seq<u8>) -> bool {
    exists|i: int|
        0 <= i < stale.len() && filepath::same_path((#[trigger] stale[i]).checkout_path, checkout)
}

fn is_still_stale(stale: &Vec<StaleWorkspace>, checkout: &FilePath) -> (found: bool)
    ensures
        found == still_stale(stale.deep_view(), checkout@),
{
    let ghost all = stale.deep_view();
    let mut i: usize = 0;
    while i < stale.len()
        invariant
            i <= stale.len(),
            all == stale.deep_view(),
            forall|j: int|
                0 <= j < i ==> !filepath::same_path((#[trigger] all[j]).checkout_path, checkout@),
        decreases stale.len() - i,
    {
        assert(all[i as int] == stale[i as int].deep_view());
        if stale[i].checkout_path.same_as(checkout) {
            return true;
        }
        i += 1;
    }
    false
}

/// A failed retirement of a workspace whose checkout is gone.
pub open spec fn stale_failure(message: Seq<char>) -> WorktreeDecisionView {
    refused(ReasonCode::HerdrStaleWorkspaceFailed, message, true)
}

fn new_stale_failure(message: &str) -> (decision: WorktreeDecision)
    ensures
        decision.deep_view() == stale_failure(message@),
{
    new_refused(ReasonCode::HerdrStaleWorkspaceFailed, message.to_owned(), true)
}

/// The retirement of a workspace whose checkout is gone; it counts only once Herdr no longer
/// shows the workspace.
pub open spec fn retire_stale_flow(
    git_common_directory: Seq<u8>,
    inventory: Seq<Seq<u8>>,
    checkout: Seq<u8>,
    coordination: CoordinationView,
    timeout: u64,
    replies: Seq<ReplyView>,
    at: int,
) -> Flow<WorktreeDecisionView> {
    match herdr::retirement::retire_flow(
        coordination.session,
        coordination.workspaces,
        0,
        Seq::empty(),
        timeout,
        replies,
        at,
    ) {
        Flow::Ask(request) => Flow::Ask(request),
        Flow::Done(Err(error), next) => Flow::Done(
            stale_failure(herdr::retirement_message(error)),
            next,
        ),
        Flow::Done(Ok(()), next) => match herdr::stale::inspect_stale_flow(
            git_common_directory,
            inventory,
            timeout,
            replies,
            next,
        ) {
            Flow::Ask(request) => Flow::Ask(request),
            Flow::Done(Ok(StaleWorkspaceStatusView::Inspected(stale)), next) => Flow::Done(
                if still_stale(stale, checkout) {
                    stale_failure("stale Herdr workspace remained after close"@)
                } else {
                    WorktreeDecisionView {
                        outcome: WorktreeOutcome::Removed,
                        reason_code: ReasonCode::HerdrStaleWorkspaceRetired,
                        message: Some("retired stale idle Herdr workspace"@),
                        failed: false,
                    }
                },
                next,
            ),
            Flow::Done(_, next) => Flow::Done(
                stale_failure("could not verify stale Herdr workspace retirement"@),
                next,
            ),
        },
    }
}

fn retire_stale_workspace(
    git_common_directory: &FilePath,
    inventory: &Vec<FilePath>,
    checkout: &FilePath,
    coordination: &Coordination,
    timeout: u64,
    replies: &Vec<Reply>,
    at: usize,
) -> (step: Step<WorktreeDecision>)
    ensures
        step.deep_view() == retire_stale_flow(
            git_common_directory@,
            inventory.deep_view(),
            checkout@,
            coordination.deep_view(),
            timeout,
            replies.deep_view(),
            at as int,
        ),
{
    let next = match herdr::retirement::retire_candidate(coordination, timeout, replies, at) {
        Step::Ask(request) => return Step::Ask(request),
        Step::Done(Err(error), next) => return Step::Done(
            new_stale_failure(error.message().as_str()),
            next,
        ),
        Step::Done(Ok(()), next) => next,
    };
    match herdr::stale::inspect_stale_workspaces(
        git_common_directory,
        inventory,
        timeout,
        replies,
        next,
    ) {
        Step::Ask(request) => Step::Ask(request),
        Step::Done(Ok(StaleWorkspaceStatus::Inspected(stale)), next) => {
            if is_still_stale(&stale, checkout) {
                Step::Done(new_stale_failure("stale Herdr workspace remained after close"), next)
            } else {
                Step::Done(
                    WorktreeDecision {
                        outcome: WorktreeOutcome::Removed,
                        reason_code: ReasonCode::HerdrStaleWorkspaceRetired,
                        message: Some("retired stale idle Herdr workspace".to_owned()),
                        failed: false,
                    },
                    next,
                )
            }
        },
        Step::Done(Ok(StaleWorkspaceStatus::Unavailable), next) => Step::Done(
            new_stale_failure("could not verify stale Herdr workspace retirement"),
            next,
        ),
        Step::Done(Err(_), next) => Step::Done(
            new_stale_failure("could not verify stale Herdr workspace retirement"),
            next,
        ),
    }
}

/// What is done with one workspace whose checkout is gone.
pub open spec fn decide_stale_flow(
    git_common_directory: Seq<u8>,
    inventory: Seq<Seq<u8>>,
    workspace: StaleWorkspaceView,
    timeout: u64,
    apply: bool,
    replies: Seq<ReplyView>,
    at: int,
) -> Flow<WorktreeDecisionView> {
    match workspace.status {
        CandidateStatusView::Clear(coordination) => if apply {
            retire_stale_flow(
                git_common_directory,
                inventory,
                workspace.checkout_path,
                coordination,
                timeout,
                replies,
                at,
            )
        } else {
            Flow::Done(
                WorktreeDecisionView {
                    outcome: WorktreeOutcome::Candidate,
                    reason_code: ReasonCode::HerdrStaleWorkspacePending,
                    message: Some("stale idle Herdr workspace is pending retirement"@),
                    failed: false,
                },
                at,
            )
        },
        CandidateStatusView::FocusedPane { pane_id } => Flow::Done(
            refused(
                ReasonCode::HerdrFocusedPane,
                "stale Herdr workspace contains focused pane "@ + pane_id,
                false,
            ),
            at,
        ),
        CandidateStatusView::ActiveAgent { pane_id } => Flow::Done(
            refused(
                ReasonCode::HerdrActiveAgent,
                "stale Herdr workspace contains active pane "@ + pane_id,
                false,
            ),
            at,
        ),
        CandidateStatusView::Unavailable => Flow::Done(
            stale_failure("stale Herdr workspace has no status"@),
            at,
        ),
    }
}

fn decide_stale(
    git_common_directory: &FilePath,
    inventory: &Vec<FilePath>,
    workspace: &StaleWorkspace,
    timeout: u64,
    apply: bool,
    replies: &Vec<Reply>,
    at: usize,
) -> (step: Step<WorktreeDecision>)
    ensures
        step.deep_view() == decide_stale_flow(
            git_common_directory@,
            inventory.deep_view(),
            workspace.deep_view(),
            timeout,
            apply,
            replies.deep_view(),
            at as int,
        ),
{
    match &workspace.status {
        CandidateStatus::Clear(coordination) => if apply {
            retire_stale_workspace(
                git_common_directory,
                inventory,
                &workspace.checkout_path,
                coordination,
                timeout,
                replies,
                at,
            )
        } else {
            Step::Done(
                WorktreeDecision {
                    outcome: WorktreeOutcome::Candidate,
                    reason_code: ReasonCode::HerdrStaleWorkspacePending,
                    message: Some("stale idle Herdr workspace is pending retirement".to_owned()),
                    failed: false,
                },
                at,
            )
        },
        CandidateStatus::FocusedPane { pane_id } => Step::Done(
            new_refused(
                ReasonCode::HerdrFocusedPane,
                text::concat2("stale Herdr workspace contains focused pane ", pane_id.as_str()),
                false,
            ),
            at,
        ),
        CandidateStatus::ActiveAgent { pane_id } => Step::Done(
            new_refused(
                ReasonCode::HerdrActiveAgent,
                text::concat2("stale Herdr workspace contains active pane ", pane_id.as_str()),
                false,
            ),
            at,
        ),
        CandidateStatus::Unavailable => Step::Done(
            new_stale_failure("stale Herdr workspace has no status"),
            at,
        ),
    }
}

/// A decision about the checkout of a workspace.
#[derive(Debug, PartialEq, Eq)]
pub struct StaleDecision {
    pub path: FilePath,
    pub decision: WorktreeDecision,
}

/// The content of a [`StaleDecision`].
pub struct StaleDecisionView {
    pub path: Seq<u8>,
    pub decision: WorktreeDecisionView,
}

impl DeepView for StaleDecision {
    type V = StaleDecisionView;

    open spec fn deep_view(&self) -> StaleDecisionView {
        StaleDecisionView {
            path: self.path@,
            decision: self.decision.deep_view(),
        }
    }
}

/// What became of the workspaces whose checkouts are gone.
#[derive(Debug, PartialEq, Eq)]
pub struct Reconciliation {
    /// Whether they could not be found out.
    pub failed: bool,
    pub decisions: Vec<StaleDecision>,
}

/// The content of a [`Reconciliation`].
pub struct ReconciliationView {
    pub failed: bool,
    pub decisions: Seq<StaleDecisionView>,
}

impl DeepView for Reconciliation {
    type V = ReconciliationView;

    open spec fn deep_view(&self) -> ReconciliationView {
        ReconciliationView {
            failed: self.failed,
            decisions: self.decisions.deep_view(),
        }
    }
}

/// The decisions about the workspaces from the one number `done.len()` on, behind `done`.
pub open spec fn decide_all_stale_flow(
    git_common_directory: Seq<u8>,
    inventory: Seq<Seq<u8>>,
    stale: Seq<StaleWorkspaceView>,
    done: Seq<StaleDecisionView>,
    timeout: u64,
    apply: bool,
    replies: Seq<ReplyView>,
    at: int,
) -> Flow<ReconciliationView>
    decreases stale.len() - done.len(),
{
    if done.len() >= stale.len() {
        Flow::Done(ReconciliationView { failed: false, decisions: done }, at)
    } else {
        let workspace = stale[done.len() as int];
        match decide_stale_flow(
            git_common_directory,
            inventory,
            workspace,
            timeout,
            apply,
            replies,
            at,
        ) {
            Flow::Ask(request) => Flow::Ask(request),
            Flow::Done(decision, next) => decide_all_stale_flow(
                git_common_directory,
                inventory,
                stale,
                done.push(StaleDecisionView { path: workspace.checkout_path, decision }),
                timeout,
                apply,
                replies,
                next,
            ),
        }
    }
}

/// What is done with the workspaces of a repository whose checkouts are gone.
pub open spec fn reconcile_flow(
    git_common_directory: Seq<u8>,
    inventory: Seq<Seq<u8>>,
    timeout: u64,
    apply: bool,
    replies: Seq<ReplyView>,
    at: int,
) -> Flow<ReconciliationView> {
    match herdr::stale::inspect_stale_flow(git_common_directory, inventory, timeout, replies, at) {
        Flow::Ask(request) => Flow::Ask(request),
        Flow::Done(Err(_), next) => Flow::Done(
            ReconciliationView { failed: true, decisions: Seq::empty() },
            next,
        ),
        Flow::Done(Ok(StaleWorkspaceStatusView::Unavailable), next) => Flow::Done(
            ReconciliationView { failed: false, decisions: Seq::empty() },
            next,
        ),
        Flow::Done(Ok(StaleWorkspaceStatusView::Inspected(stale)), next) => decide_all_stale_flow(
            git_common_directory,
            inventory,
            stale,
            Seq::empty(),
            timeout,
            apply,
            replies,
            next,
        ),
    }
}

/// What is done with the workspaces of a repository whose checkouts are gone.
pub fn reconcile_stale_herdr_workspaces(
    git_common_directory: &FilePath,
    inventory: &Vec<FilePath>,
    timeout: u64,
    apply: bool,
    replies: &Vec<Reply>,
    at: usize,
) -> (step: Step<Reconciliation>)
    ensures
        step.deep_view() == reconcile_flow(
            git_common_directory@,
            inventory.deep_view(),
            timeout,
            apply,
            replies.deep_view(),
            at as int,
        ),
{
    let mut decisions: Vec<StaleDecision> = Vec::new();
    assert(decisions.deep_view() =~= Seq::empty());
    let (stale, first) = match herdr::stale::inspect_stale_workspaces(
        git_common_directory,
        inventory,
        timeout,
        replies,
        at,
    ) {
        Step::Ask(request) => return Step::Ask(request),
        Step::Done(Err(_), next) => return Step::Done(
            Reconciliation { failed: true, decisions },
            next,
        ),
        Step::Done(Ok(StaleWorkspaceStatus::Unavailable), next) => return Step::Done(
            Reconciliation { failed: false, decisions },
            next,
        ),
        Step::Done(Ok(StaleWorkspaceStatus::Inspected(stale)), next) => (stale, next),
    };
    let ghost all = stale.deep_view();
    let ghost goal = reconcile_flow(
        git_common_directory@,
        inventory.deep_view(),
        timeout,
        apply,
        replies.deep_view(),
        at as int,
    );
    let mut position: usize = first;
    while decisions.len() < stale.len()
        invariant
            decisions.len() <= stale.len(),
            all == stale.deep_view(),
            goal == reconcile_flow(
                git_common_directory@,
                inventory.deep_view(),
                timeout,
                apply,
                replies.deep_view(),
                at as int,
            ),
            goal == decide_all_stale_flow(
                git_common_directory@,
                inventory.deep_view(),
                all,
                decisions.deep_view(),
                timeout,
                apply,
                replies.deep_view(),
                position as int,
            ),
        decreases stale.len() - decisions.len(),
    {
        let ghost before = decisions.deep_view();
        let workspace = &stale[decisions.len()];
        assert(all[decisions.len() as int] == workspace.deep_view());
        match decide_stale(
            git_common_directory,
            inventory,
            workspace,
            timeout,
            apply,
            replies,
            position,
        ) {
            Step::Ask(request) => return Step::Ask(request),
            Step::Done(decision, next) => {
                let made = StaleDecision { path: workspace.checkout_path.clone(), decision };
                let ghost added = made.deep_view();
                decisions.push(made);
                assert(decisions.deep_view() =~= before.push(added));
                position = next;
            },
        }
    }
    Step::Done(Reconciliation { failed: false, decisions }, position)
}

/// The totals with one more decision.
pub open spec fn count_decision(summary: Summary, decision: WorktreeDecisionView) -> Summary {
    let counted = if decision.failed {
        summary.with_failure()
    } else {
        summary
    };
    match decision.outcome {
        WorktreeOutcome::Candidate => Summary {
            candidates: output::raised(counted.candidates, 1),
            ..counted
        },
        WorktreeOutcome::Refused => Summary {
            refusals: output::raised(counted.refusals, 1),
            ..counted
        },
        WorktreeOutcome::Malformed => Summary {
            malformed_states: output::raised(counted.malformed_states, 1),
            ..counted
        },
        WorktreeOutcome::Removed => Summary {
            removals: output::raised(counted.removals, 1),
            ..counted
        },
        WorktreeOutcome::Retained => counted,
        WorktreeOutcome::Skipped => counted,
    }
}

/// The totals with one more decision.
pub fn update_worktree_summary(summary: Summary, decision: &WorktreeDecision) -> (total: Summary)
    ensures
        total == count_decision(summary, decision.deep_view()),
{
    let counted = if decision.failed {
        summary.count_failure()
    } else {
        summary
    };
    match decision.outcome {
        WorktreeOutcome::Candidate => Summary {
            candidates: output::raise(counted.candidates, 1),
            ..counted
        },
        WorktreeOutcome::Refused => Summary {
            refusals: output::raise(counted.refusals, 1),
            ..counted
        },
        WorktreeOutcome::Malformed => Summary {
            malformed_states: output::raise(counted.malformed_states, 1),
            ..counted
        },
        WorktreeOutcome::Removed => Summary {
            removals: output::raise(counted.removals, 1),
            ..counted
        },
        WorktreeOutcome::Retained => counted,
        WorktreeOutcome::Skipped => counted,
    }
}

/// The totals with one more repository.
pub open spec fn count_repository(
    summary: Summary,
    outcome: RepositoryInspectionOutcome,
) -> Summary {
    Summary {
        operational_failures: if outcome is Inspected {
            summary.operational_failures
        } else {
            output::raised(summary.operational_failures, 1)
        },
        fetch_failures: if outcome is FetchFailed || outcome is FetchTimedOut {
            output::raised(summary.fetch_failures, 1)
        } else {
            summary.fetch_failures
        },
        malformed_states: if outcome is MalformedPorcelain || outcome is InspectionFailed {
            output::raised(summary.malformed_states, 1)
        } else {
            summary.malformed_states
        },
        ..summary
    }
}

/// The totals with one more repository.
pub fn update_repository_summary(
    summary: Summary,
    outcome: RepositoryInspectionOutcome,
) -> (total: Summary)
    ensures
        total == count_repository(summary, outcome),
{
    let mut total = summary;
    if outcome != RepositoryInspectionOutcome::Inspected {
        total = total.count_failure();
    }
    if outcome == RepositoryInspectionOutcome::FetchFailed || outcome
        == RepositoryInspectionOutcome::FetchTimedOut {
        total.fetch_failures = output::raise(total.fetch_failures, 1);
    }
    if outcome == RepositoryInspectionOutcome::MalformedPorcelain || outcome
        == RepositoryInspectionOutcome::InspectionFailed {
        total.malformed_states = output::raise(total.malformed_states, 1);
    }
    total
}

} // verus!
