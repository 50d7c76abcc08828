//! What becomes of a worktree, told of the facts about it.
use crate::cleanup;
use crate::cleanup::model::{check_replies, removes_plainly, safe, tells, Facts};
use crate::cleanup::{BranchOutcome, RemovalErrorView, RemovalResultView, RemovalRowView};
use crate::command::{CommandLineView, CommandResultView, ReplyView, RequestView};
use crate::decision;
use crate::decision::WorktreeDecisionView;
use crate::discovery::DiscoveryIssueKind;
use crate::filepath;
use crate::flow;
use crate::flow::Flow;
use crate::herdr;
use crate::herdr::{CandidateStatusView, CoordinationView, StaleWorkspaceView};
use crate::inspection::{RepositoryInspectionOutcome, WorktreeClassification};
use crate::inspection::WorktreeInspectionView;
use crate::output::{ReasonCode, RepositoryOutcome, Summary, WorktreeOutcome};
use crate::text;
use vstd::prelude::*;

verus! {

/// A classification is reported under the reason of the same name, but for a worktree whose
/// metadata make no sense. A proof of integration makes a candidate; what makes no sense is
/// malformed; what was not or cannot be compared with an upstream is skipped; a lock refuses; and
/// everything else is retained.
pub proof fn law_classifications_are_reported_as_they_are(classification: WorktreeClassification)
    ensures
        ({
            let (outcome, reason) = decision::worktree_report(classification);
            &&& reason is MainWorktree <==> classification is MainWorktree
            &&& reason is UpstreamExists <==> classification is UpstreamExists
            &&& reason is NoUpstream <==> classification is NoUpstream
            &&& reason is DetachedWorktree <==> classification is DetachedWorktree
            &&& reason is DanglingSymbolicHead <==> classification is DanglingSymbolicHead
            &&& reason is PrunableWorktree <==> classification is PrunableWorktree
            &&& reason is LockedWorktree <==> classification is LockedWorktree
            &&& reason is UpstreamMissing <==> classification is UpstreamMissing
            &&& reason is IntegratedSameCommit <==> classification is IntegratedSameCommit
            &&& reason is IntegratedAncestor <==> classification is IntegratedAncestor
            &&& reason is IntegratedNoAddedChanges <==> classification is IntegratedNoAddedChanges
            &&& reason is IntegratedTreesMatch <==> classification is IntegratedTreesMatch
            &&& reason is IntegratedMergeAddsNothing <==> classification
                is IntegratedMergeAddsNothing
            &&& reason is IntegratedPatchIdMatch <==> classification is IntegratedPatchIdMatch
            &&& reason is NotIntegrated <==> classification is NotIntegrated
            &&& reason is IntegrationIndeterminate <==> classification is IntegrationIndeterminate
            &&& reason is DefaultBranchUnresolved <==> classification is DefaultBranchUnresolved
            &&& reason is WorktrunkFailed <==> classification is WorktrunkFailed
            &&& reason is FetchFailed <==> classification is FetchFailed
            &&& reason is FetchTimedOut <==> classification is FetchTimedOut
            &&& reason is InvalidGitMetadata <==> classification is Malformed
            &&& outcome is Candidate <==> reason is IntegratedSameCommit || reason
                is IntegratedAncestor || reason is IntegratedNoAddedChanges || reason
                is IntegratedTreesMatch || reason is IntegratedMergeAddsNothing || reason
                is IntegratedPatchIdMatch
            &&& outcome is Malformed <==> reason is DanglingSymbolicHead || reason
                is PrunableWorktree || reason is InvalidGitMetadata
            &&& outcome is Skipped <==> reason is NoUpstream || reason is DetachedWorktree || reason
                is FetchFailed || reason is FetchTimedOut
            &&& outcome is Refused <==> reason is LockedWorktree
            &&& outcome is Retained <==> reason is MainWorktree || reason is UpstreamExists
                || reason is UpstreamMissing || reason is NotIntegrated || reason
                is IntegrationIndeterminate || reason is DefaultBranchUnresolved || reason
                is WorktrunkFailed
            &&& !(outcome is Removed)
        }),
{
}

/// Repositories, branches and problems of a search are reported as what they are.
pub proof fn law_reports_tell_what_happened(
    outcome: RepositoryInspectionOutcome,
    branch: BranchOutcome,
    kind: DiscoveryIssueKind,
)
    ensures
        ({
            let (reported, reason) = decision::repository_report(outcome);
            &&& reported is Inspected <==> outcome is Inspected
            &&& reported is FetchFailed <==> outcome is FetchFailed
            &&& reported is FetchTimedOut <==> outcome is FetchTimedOut
            &&& reported is IntegrationFailed <==> outcome is IntegrationFailed
            &&& reported is Malformed <==> outcome is MalformedPorcelain || outcome
                is InspectionFailed
            &&& reason is Okay <==> outcome is Inspected
            &&& reason is FetchFailed <==> outcome is FetchFailed
            &&& reason is FetchTimedOut <==> outcome is FetchTimedOut
            &&& reason is WorktrunkFailed <==> outcome is IntegrationFailed
            &&& reason is MalformedPorcelain <==> outcome is MalformedPorcelain
            &&& reason is InvalidGitMetadata <==> outcome is InspectionFailed
        }),
        ({
            let reason = decision::branch_reason(branch);
            &&& reason is BranchDeleted <==> branch is Deleted
            &&& reason is BranchDeletionNotAttempted <==> branch is NotAttempted || branch
                is Deferred
            &&& reason is BranchRetainedUnmerged <==> branch is RetainedUnmerged
            &&& reason is BranchRetainedCheckedOut <==> branch is RetainedCheckedOut
            &&& reason is BranchRetainedRaced <==> branch is RetainedRaced
            &&& reason is BranchDeletionFailed <==> branch is RetainedFailed
        }),
        ({
            let reason = decision::issue_reason(kind);
            &&& reason is InaccessibleRoot <==> kind is InaccessibleRoot
            &&& reason is InaccessibleDirectory <==> kind is InaccessibleDirectory
            &&& reason is UnsafeCanonicalization <==> kind is UnsafeCanonicalization
            &&& reason is InvalidGitMetadata <==> kind is InvalidGitMetadata
        }),
{
}

/// Every decision is counted once, under its outcome, and a failure besides; nothing else changes
/// in the totals.
pub proof fn law_decisions_are_counted_once(
    summary: Summary,
    made: WorktreeDecisionView,
    outcome: RepositoryInspectionOutcome,
)
    requires
        summary.candidates < u64::MAX,
        summary.refusals < u64::MAX,
        summary.removals < u64::MAX,
        summary.malformed_states < u64::MAX,
        summary.operational_failures < u64::MAX,
        summary.fetch_failures < u64::MAX,
    ensures
        ({
            let total = decision::count_decision(summary, made);
            &&& total.candidates == summary.candidates + if made.outcome is Candidate {
                1int
            } else {
                0
            }
            &&& total.refusals == summary.refusals + if made.outcome is Refused {
                1int
            } else {
                0
            }
            &&& total.removals == summary.removals + if made.outcome is Removed {
                1int
            } else {
                0
            }
            &&& total.malformed_states == summary.malformed_states + if made.outcome is Malformed {
                1int
            } else {
                0
            }
            &&& total.operational_failures == summary.operational_failures + if made.failed {
                1int
            } else {
                0
            }
            &&& total == (Summary {
                candidates: total.candidates,
                refusals: total.refusals,
                removals: total.removals,
                malformed_states: total.malformed_states,
                operational_failures: total.operational_failures,
                ..summary
            })
        }),
        ({
            let total = decision::count_repository(summary, outcome);
            &&& total.operational_failures == summary.operational_failures + if outcome is Inspected {
                0int
            } else {
                1
            }
            &&& total.fetch_failures == summary.fetch_failures + if outcome is FetchFailed || outcome
                is FetchTimedOut {
                1int
            } else {
                0
            }
            &&& total.malformed_states == summary.malformed_states + if outcome
                is MalformedPorcelain || outcome is InspectionFailed {
                1int
            } else {
                0
            }
            &&& total == (Summary {
                fetch_failures: total.fetch_failures,
                malformed_states: total.malformed_states,
                operational_failures: total.operational_failures,
                ..summary
            })
        }),
{
}

/// A removal that Worktrunk confirmed is reported as one, with what became of the branch, and
/// counts as failed only where the deletion of the branch failed; any other is a refusal that
/// failed.
pub proof fn law_removals_are_reported(result: Result<RemovalResultView, RemovalErrorView>)
    ensures
        ({
            let made = decision::removal_decision(result);
            match result {
                Ok(removed) => {
                    &&& made.outcome is Removed
                    &&& made.reason_code == decision::branch_reason(removed.branch_outcome)
                    &&& made.failed <==> removed.branch_outcome is RetainedFailed
                    &&& made.message is Some <==> removed.branch_checked_out_at is Some
                    &&& removed.branch_checked_out_at matches Some(path) ==> made.message == Some(
                        "branch is also checked out at "@ + text::lossy_text(path),
                    )
                },
                Err(_) => made.outcome is Refused && made.reason_code is RemovalFailed
                    && made.failed && made.message is Some,
            }
        }),
{
}

/// Whether there is no Herdr.
pub open spec fn no_herdr(world: spec_fn(RequestView) -> ReplyView) -> bool {
    forall|line: CommandLineView|
        line.program == "herdr"@ ==> ((#[trigger] world(RequestView::Run(line)))
            matches ReplyView::Command(result) && result is Failed)
}

/// Whether Worktrunk removes a worktree when it is asked to, and says so.
pub open spec fn removes_when_asked(
    world: spec_fn(RequestView) -> ReplyView,
    repository: Seq<u8>,
    worktree: Seq<u8>,
    timeout: u64,
    row: RemovalRowView,
) -> bool {
    &&& forall|line: CommandLineView| #[trigger]
        removes_plainly(line, repository, worktree, timeout) ==> (world(RequestView::Run(line))
            matches ReplyView::Command(CommandResultView::Exited { code, stdout, .. }) && code
            == Some(0i32) && world(RequestView::DecodeRemoval(stdout)) == ReplyView::Removal(
            Ok(seq![row]),
        ))
    &&& row.kind == "worktree"@
    &&& filepath::same_path(row.path, worktree)
    &&& row.branch is Some
    &&& !(row.branch_outcome is Deferred)
}

/// The replies that the decision on a safe candidate gets, in order.
spec fn decision_replies(
    world: spec_fn(RequestView) -> ReplyView,
    repository: Seq<u8>,
    path: Seq<u8>,
    check_processes: bool,
    timeout: u64,
    apply: bool,
) -> Seq<ReplyView> {
    let list = crate::command::plain_command(
        "herdr"@,
        seq!["session"@, "list"@, "--json"@],
        timeout,
    );
    let removal = world(RequestView::Run(cleanup::remove_command(repository, path, timeout)));
    let checked = check_replies(world, repository, path, false, timeout) + seq![
        world(RequestView::Run(list)),
        world(RequestView::Run(herdr::session::snapshot_command(None, timeout))),
    ] + check_replies(world, repository, path, check_processes, timeout);
    if apply {
        checked + seq![
            removal,
            world(RequestView::DecodeRemoval(removal->Command_0->stdout)),
        ]
    } else {
        checked
    }
}

/// The decision on a worktree, as a function of the replies.
pub open spec fn deciding(
    repository: Seq<u8>,
    worktree: WorktreeInspectionView,
    check_processes: bool,
    timeout: u64,
    apply: bool,
) -> spec_fn(Seq<ReplyView>) -> Flow<WorktreeDecisionView> {
    |replies: Seq<ReplyView>|
        decision::decide_flow(
            repository,
            worktree,
            check_processes,
            timeout,
            apply,
            replies,
            0,
        )
}

/// A worktree whose integration was proved, that nothing speaks against and that Herdr knows
/// nothing of, is removed where removals are applied, and is reported as a candidate, under the
/// reason of its integration, where they are not.
pub proof fn law_safe_candidates_are_removed(
    world: spec_fn(RequestView) -> ReplyView,
    repository: Seq<u8>,
    worktree: WorktreeInspectionView,
    check_processes: bool,
    timeout: u64,
    apply: bool,
    facts: Facts,
    row: RemovalRowView,
)
    requires
        worktree.classification is IntegratedSameCommit || worktree.classification
            is IntegratedAncestor || worktree.classification is IntegratedNoAddedChanges
            || worktree.classification is IntegratedTreesMatch || worktree.classification
            is IntegratedMergeAddsNothing || worktree.classification is IntegratedPatchIdMatch,
        tells(world, repository, worktree.path, timeout, facts),
        safe(facts, worktree, check_processes, Seq::empty()),
        no_herdr(world),
        removes_when_asked(world, repository, worktree.path, timeout, row),
    ensures
        exists|more: nat|
            (#[trigger] flow::answered(
                deciding(repository, worktree, check_processes, timeout, apply),
                world,
                Seq::empty(),
                more,
            )) matches Some(made) && if apply {
                made.outcome is Removed && made.reason_code == decision::branch_reason(
                    row.branch_outcome,
                ) && (made.failed <==> row.branch_outcome is RetainedFailed)
            } else {
                made.outcome is Candidate && made.reason_code == decision::worktree_report(
                    worktree.classification,
                ).1 && made.message is None && !made.failed
            },
{
    let expected = decision_replies(
        world,
        repository,
        worktree.path,
        check_processes,
        timeout,
        apply,
    );
    let work = deciding(repository, worktree, check_processes, timeout, apply);
    assert forall|k: int| 0 <= k < expected.len() implies ((#[trigger] work(expected.take(k)))
        matches Flow::Ask(request) && world(request) == expected[k]) by {
        lemma_deciding(
            world,
            repository,
            worktree,
            check_processes,
            timeout,
            apply,
            facts,
            row,
            expected.take(k),
        );
    }
    assert(expected.take(expected.len() as int) =~= expected);
    lemma_deciding(
        world,
        repository,
        worktree,
        check_processes,
        timeout,
        apply,
        facts,
        row,
        expected,
    );
    flow::lemma_answered_all(work, world, expected, 0);
    assert(expected.take(0) =~= Seq::empty());
    assert(flow::answered(work, world, Seq::empty(), expected.len()) == Some(
        work(expected)->Done_0,
    ));
}

proof fn lemma_deciding(
    world: spec_fn(RequestView) -> ReplyView,
    repository: Seq<u8>,
    worktree: WorktreeInspectionView,
    check_processes: bool,
    timeout: u64,
    apply: bool,
    facts: Facts,
    row: RemovalRowView,
    replies: Seq<ReplyView>,
)
    requires
        decision::worktree_report(worktree.classification).0 is Candidate,
        tells(world, repository, worktree.path, timeout, facts),
        safe(facts, worktree, check_processes, Seq::empty()),
        no_herdr(world),
        removes_when_asked(world, repository, worktree.path, timeout, row),
        ({
            let expected = decision_replies(
                world,
                repository,
                worktree.path,
                check_processes,
                timeout,
                apply,
            );
            replies.len() <= expected.len() && replies == expected.take(replies.len() as int)
        }),
    ensures
        ({
            let expected = decision_replies(
                world,
                repository,
                worktree.path,
                check_processes,
                timeout,
                apply,
            );
            let step = decision::decide_flow(
                repository,
                worktree,
                check_processes,
                timeout,
                apply,
                replies,
                0,
            );
            &&& replies.len() < expected.len() ==> (step matches Flow::Ask(request) && world(request)
                == expected[replies.len() as int])
            &&& replies.len() == expected.len() ==> (step matches Flow::Done(made, _) && if apply {
                made.outcome is Removed && made.reason_code == decision::branch_reason(
                    row.branch_outcome,
                ) && (made.failed <==> row.branch_outcome is RetainedFailed)
            } else {
                made.outcome is Candidate && made.reason_code == decision::worktree_report(
                    worktree.classification,
                ).1 && made.message is None && !made.failed
            })
        }),
{
    let path = worktree.path;
    let expected = decision_replies(world, repository, path, check_processes, timeout, apply);
    let first = check_replies(world, repository, path, false, timeout);
    let second = check_replies(world, repository, path, check_processes, timeout);
    assert forall|j: int| 0 <= j < replies.len() implies #[trigger] replies[j] == expected[j] by {}
    assert forall|j: int| 0 <= j < first.len() && 0 + j < replies.len() implies
        #[trigger] replies[0 + j] == first[j] by {
        assert(replies[j] == expected[j]);
    }
    assert(safe(facts, worktree, false, Seq::empty()));
    cleanup::model::lemma_check_passes(
        world,
        repository,
        worktree,
        false,
        timeout,
        Seq::empty(),
        facts,
        replies,
        0,
    );
    if replies.len() >= 3 {
        let list = crate::command::plain_command(
            "herdr"@,
            seq!["session"@, "list"@, "--json"@],
            timeout,
        );
        let snapshot = herdr::session::snapshot_command(None, timeout);
        assert(world(RequestView::Run(list)) matches ReplyView::Command(result) && result
            is Failed);
        assert(world(RequestView::Run(snapshot)) matches ReplyView::Command(result) && result
            is Failed);
        assert(expected[3] == world(RequestView::Run(list)));
        assert(expected[4] == world(RequestView::Run(snapshot)));
        if replies.len() >= 5 {
            assert(replies[3] == expected[3]);
            assert(replies[4] == expected[4]);
            assert(herdr::inspect_candidate_flow(path, timeout, replies, 3) == Flow::<
                Result<CandidateStatusView, herdr::InspectionErrorView>,
            >::Done(Ok(CandidateStatusView::Unavailable), 5));
            assert forall|j: int| 0 <= j < second.len() && 5 + j < replies.len() implies
                #[trigger] replies[5 + j] == second[j] by {
                assert(replies[5 + j] == expected[5 + j]);
            }
            cleanup::model::lemma_check_passes(
                world,
                repository,
                worktree,
                check_processes,
                timeout,
                Seq::empty(),
                facts,
                replies,
                5,
            );
            if replies.len() < 5 + second.len() {
                assert(expected[replies.len() as int] == second[replies.len() - 5]);
            } else if apply {
                lemma_removing(world, repository, path, timeout, row, replies, expected, second);
            }
        }
    }
}

proof fn lemma_removing(
    world: spec_fn(RequestView) -> ReplyView,
    repository: Seq<u8>,
    path: Seq<u8>,
    timeout: u64,
    row: RemovalRowView,
    replies: Seq<ReplyView>,
    expected: Seq<ReplyView>,
    second: Seq<ReplyView>,
)
    requires
        removes_when_asked(world, repository, path, timeout, row),
        ({
            let removal = world(
                RequestView::Run(cleanup::remove_command(repository, path, timeout)),
            );
            let at = 5 + second.len() as int;
            &&& expected.len() == at + 2
            &&& expected[at] == removal
            &&& expected[at + 1] == world(
                RequestView::DecodeRemoval(removal->Command_0->stdout),
            )
        }),
        5 + second.len() <= replies.len() <= expected.len(),
        forall|j: int| 0 <= j < replies.len() ==> #[trigger] replies[j] == expected[j],
    ensures
        ({
            let at = 5 + second.len();
            let step = cleanup::remove_flow(repository, path, timeout, replies, at as int);
            &&& replies.len() < expected.len() ==> (step matches Flow::Ask(request) && world(request)
                == expected[replies.len() as int])
            &&& replies.len() == expected.len() ==> (step matches Flow::Done(Ok(removed), _)
                && removed.branch_outcome == row.branch_outcome)
        }),
{
    let removal = cleanup::remove_command(repository, path, timeout);
    assert(removal.removed[0] == "GIT_DIR"@ && removal.removed[1] == "GIT_WORK_TREE"@);
    assert(removal.environment[0] == ("GIT_OPTIONAL_LOCKS"@, "0"@));
    assert(removal.environment[1] == ("GIT_TERMINAL_PROMPT"@, "0"@));
    assert(removes_plainly(removal, repository, path, timeout));
    assert(seq![row][0] == row);
    let at = (5 + second.len()) as int;
    if replies.len() > at {
        assert(replies[at] == expected[at]);
    }
    if replies.len() > at + 1 {
        assert(replies[at + 1] == expected[at + 1]);
    }
}

/// What Herdr has against a removal refuses it, and is no failure; where workspaces have to be
/// retired first and removals are not applied, the candidate waits for that.
pub proof fn law_herdr_refuses_and_delays(
    status: CandidateStatusView,
    repository: Seq<u8>,
    worktree: WorktreeInspectionView,
    coordination: CoordinationView,
    check_processes: bool,
    timeout: u64,
    candidate: WorktreeDecisionView,
    replies: Seq<ReplyView>,
    at: int,
    made: WorktreeDecisionView,
    next: int,
)
    requires
        candidate.outcome is Candidate,
        decision::coordinate_flow(
            repository,
            worktree,
            coordination,
            check_processes,
            timeout,
            false,
            candidate,
            replies,
            at,
        ) == Flow::<Result<(), WorktreeDecisionView>>::Done(Err(made), next),
    ensures
        status matches CandidateStatusView::FocusedPane { pane_id } ==> decision::veto_decision(
            status,
        ) == (WorktreeDecisionView {
            outcome: WorktreeOutcome::Refused,
            reason_code: ReasonCode::HerdrFocusedPane,
            message: Some("Herdr pane "@ + pane_id + " is focused in the worktree"@),
            failed: false,
        }),
        status matches CandidateStatusView::ActiveAgent { pane_id } ==> decision::veto_decision(
            status,
        ) == (WorktreeDecisionView {
            outcome: WorktreeOutcome::Refused,
            reason_code: ReasonCode::HerdrActiveAgent,
            message: Some("Herdr pane "@ + pane_id + " contains an active agent"@),
            failed: false,
        }),
        made.outcome is Candidate || made.outcome is Refused,
        made.outcome is Candidate && coordination.workspaces.len() == 0 ==> made == candidate,
        made.outcome is Candidate && coordination.workspaces.len() > 0 ==> made.reason_code
            is HerdrCoordinationPending && made.failed == candidate.failed,
{
}

/// What is done about a workspace whose checkout is gone: nothing where removals are not applied,
/// but that it waits; where something is against its retirement it is refused; and it counts as
/// retired exactly when its retirement succeeded and it is seen no more.
pub proof fn law_gone_workspaces_are_decided_on(
    common: Seq<u8>,
    inventory: Seq<Seq<u8>>,
    workspace: StaleWorkspaceView,
    timeout: u64,
    apply: bool,
    replies: Seq<ReplyView>,
    at: int,
    made: WorktreeDecisionView,
    next: int,
)
    requires
        decision::decide_stale_flow(
            common,
            inventory,
            workspace,
            timeout,
            apply,
            replies,
            at,
        ) == Flow::<WorktreeDecisionView>::Done(made, next),
    ensures
        match workspace.status {
            CandidateStatusView::Clear(coordination) => if !apply {
                next == at && made.outcome is Candidate && made.reason_code
                    is HerdrStaleWorkspacePending && !made.failed
            } else {
                let retired = herdr::retirement::retire_flow(
                    coordination.session,
                    coordination.workspaces,
                    0,
                    Seq::empty(),
                    timeout,
                    replies,
                    at,
                );
                let seen = retired matches Flow::Done(Ok(()), then) && (
                herdr::stale::inspect_stale_flow(common, inventory, timeout, replies, then)
                    matches Flow::Done(Ok(herdr::StaleWorkspaceStatusView::Inspected(stale)), _)
                    && forall|i: int|
                    0 <= i < stale.len() ==> !filepath::same_path(
                        (#[trigger] stale[i]).checkout_path,
                        workspace.checkout_path,
                    ));
                &&& made.outcome is Removed <==> seen
                &&& made.outcome is Removed ==> made.reason_code is HerdrStaleWorkspaceRetired
                    && !made.failed
                &&& !(made.outcome is Removed) ==> made.outcome is Refused && made.reason_code
                    is HerdrStaleWorkspaceFailed && made.failed
            },
            CandidateStatusView::FocusedPane { pane_id } => made.outcome is Refused
                && made.reason_code is HerdrFocusedPane && !made.failed,
            CandidateStatusView::ActiveAgent { pane_id } => made.outcome is Refused
                && made.reason_code is HerdrActiveAgent && !made.failed,
            CandidateStatusView::Unavailable => made.outcome is Refused && made.failed,
        },
{
}

} // verus!
