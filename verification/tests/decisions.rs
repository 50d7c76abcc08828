//! Tables, names and errors.
use lop::cleanup::{check_inventory, BranchOutcome, RemovalError, RemovalResult};
use lop::cli::{Cli, UsageError};
use lop::command::{CommandResult, Reply, Request};
use lop::decision::{
    apply_removal, branch_outcome_reason, reason_code, repository_result, update_repository_summary,
    update_worktree_summary, worktree_result, WorktreeDecision,
};
use lop::discovery::DiscoveryIssueKind;
use lop::filepath::FilePath;
use lop::flow::Step;
use lop::inspection::{
    inspect_repository, InventoryWorktree, RepositoryInspectionOutcome, WorktreeClassification,
    WorktreeInspection,
};
use lop::integration::{classify_proof, prove_integrations, AdapterError, IntegrationCandidate};
use lop::integration::{IntegrationProof, IntegrationReason};
use lop::output::{CommandName, ReasonCode, RepositoryOutcome, Summary, WorktreeOutcome};

fn path(text: &str) -> FilePath {
    FilePath::from_text(text)
}

fn snake_case(name: &str) -> String {
    let mut spelled = String::new();
    for (i, c) in name.chars().enumerate() {
        if c.is_uppercase() && i > 0 {
            spelled.push('_');
        }
        spelled.extend(c.to_lowercase());
    }
    spelled
}

fn reasons() -> Vec<ReasonCode> {
    vec![
        ReasonCode::InaccessibleRoot,
        ReasonCode::InaccessibleDirectory,
        ReasonCode::UnsafeCanonicalization,
        ReasonCode::FetchFailed,
        ReasonCode::FetchTimedOut,
        ReasonCode::InvalidGitMetadata,
        ReasonCode::MalformedPorcelain,
        ReasonCode::MainWorktree,
        ReasonCode::UpstreamExists,
        ReasonCode::NoUpstream,
        ReasonCode::DetachedWorktree,
        ReasonCode::DanglingSymbolicHead,
        ReasonCode::PrunableWorktree,
        ReasonCode::LockedWorktree,
        ReasonCode::UpstreamMissing,
        ReasonCode::IntegratedSameCommit,
        ReasonCode::IntegratedAncestor,
        ReasonCode::IntegratedNoAddedChanges,
        ReasonCode::IntegratedTreesMatch,
        ReasonCode::IntegratedMergeAddsNothing,
        ReasonCode::IntegratedPatchIdMatch,
        ReasonCode::NotIntegrated,
        ReasonCode::IntegrationIndeterminate,
        ReasonCode::DefaultBranchUnresolved,
        ReasonCode::WorktrunkFailed,
        ReasonCode::DirtyWorktree,
        ReasonCode::CheckedOutMultipleTimes,
        ReasonCode::ProcessUsingWorktree,
        ReasonCode::HerdrFocusedPane,
        ReasonCode::HerdrActiveAgent,
        ReasonCode::HerdrCoordinationPending,
        ReasonCode::HerdrStaleWorkspacePending,
        ReasonCode::HerdrStaleWorkspaceRetired,
        ReasonCode::HerdrStaleWorkspaceFailed,
        ReasonCode::HerdrInspectionFailed,
        ReasonCode::SafetyInspectionFailed,
        ReasonCode::WorktreeMissing,
        ReasonCode::WorktreeChanged,
        ReasonCode::RemovalNotConfirmed,
        ReasonCode::RemovalFailed,
        ReasonCode::HerdrCleanupFailed,
        ReasonCode::HerdrRetirementFailed,
        ReasonCode::BranchDeleted,
        ReasonCode::BranchDeletionNotAttempted,
        ReasonCode::BranchRetainedUnmerged,
        ReasonCode::BranchRetainedRaced,
        ReasonCode::BranchRetainedCheckedOut,
        ReasonCode::BranchDeletionFailed,
    ]
}

#[test]
fn reasons_are_spelled_like_their_variants() {
    for reason in reasons() {
        assert_eq!(reason.name(), snake_case(&format!("{reason:?}")));
    }
    for outcome in [
        WorktreeOutcome::Retained,
        WorktreeOutcome::Candidate,
        WorktreeOutcome::Skipped,
        WorktreeOutcome::Removed,
        WorktreeOutcome::Refused,
        WorktreeOutcome::Malformed,
    ] {
        assert_eq!(outcome.name(), snake_case(&format!("{outcome:?}")));
    }
}

#[test]
fn classifications_lead_to_outcomes() {
    for (classification, outcome) in [
        (WorktreeClassification::MainWorktree, WorktreeOutcome::Retained),
        (WorktreeClassification::UpstreamExists, WorktreeOutcome::Retained),
        (WorktreeClassification::NoUpstream, WorktreeOutcome::Skipped),
        (WorktreeClassification::DetachedWorktree, WorktreeOutcome::Skipped),
        (WorktreeClassification::DanglingSymbolicHead, WorktreeOutcome::Malformed),
        (WorktreeClassification::PrunableWorktree, WorktreeOutcome::Malformed),
        (WorktreeClassification::LockedWorktree, WorktreeOutcome::Refused),
        (WorktreeClassification::IntegratedSameCommit, WorktreeOutcome::Candidate),
        (WorktreeClassification::IntegratedAncestor, WorktreeOutcome::Candidate),
        (WorktreeClassification::IntegratedNoAddedChanges, WorktreeOutcome::Candidate),
        (WorktreeClassification::IntegratedTreesMatch, WorktreeOutcome::Candidate),
        (WorktreeClassification::IntegratedMergeAddsNothing, WorktreeOutcome::Candidate),
        (WorktreeClassification::IntegratedPatchIdMatch, WorktreeOutcome::Candidate),
        (WorktreeClassification::NotIntegrated, WorktreeOutcome::Retained),
        (WorktreeClassification::IntegrationIndeterminate, WorktreeOutcome::Retained),
        (WorktreeClassification::DefaultBranchUnresolved, WorktreeOutcome::Retained),
        (WorktreeClassification::WorktrunkFailed, WorktreeOutcome::Retained),
        (WorktreeClassification::FetchFailed, WorktreeOutcome::Skipped),
        (WorktreeClassification::FetchTimedOut, WorktreeOutcome::Skipped),
    ] {
        let (found, reason) = worktree_result(classification);
        assert_eq!(found, outcome);
        assert_eq!(format!("{reason:?}"), format!("{classification:?}"));
    }
    assert_eq!(
        worktree_result(WorktreeClassification::Malformed),
        (WorktreeOutcome::Malformed, ReasonCode::InvalidGitMetadata)
    );
}

#[test]
fn proofs_lead_to_classifications() {
    for (proof, classification) in [
        (
            IntegrationProof::Integrated(IntegrationReason::SameCommit),
            WorktreeClassification::IntegratedSameCommit,
        ),
        (
            IntegrationProof::Integrated(IntegrationReason::Ancestor),
            WorktreeClassification::IntegratedAncestor,
        ),
        (
            IntegrationProof::Integrated(IntegrationReason::NoAddedChanges),
            WorktreeClassification::IntegratedNoAddedChanges,
        ),
        (
            IntegrationProof::Integrated(IntegrationReason::TreesMatch),
            WorktreeClassification::IntegratedTreesMatch,
        ),
        (
            IntegrationProof::Integrated(IntegrationReason::MergeAddsNothing),
            WorktreeClassification::IntegratedMergeAddsNothing,
        ),
        (
            IntegrationProof::Integrated(IntegrationReason::PatchIdMatch),
            WorktreeClassification::IntegratedPatchIdMatch,
        ),
        (IntegrationProof::NotIntegrated, WorktreeClassification::NotIntegrated),
        (IntegrationProof::Indeterminate, WorktreeClassification::IntegrationIndeterminate),
        (
            IntegrationProof::DefaultBranchUnresolved,
            WorktreeClassification::DefaultBranchUnresolved,
        ),
    ] {
        assert_eq!(classify_proof(proof), classification);
    }
}

#[test]
fn repositories_are_reported_and_counted() {
    let empty = Summary::empty(CommandName::Scan, false);
    for (outcome, report, failures, fetches, malformed) in [
        (
            RepositoryInspectionOutcome::Inspected,
            (RepositoryOutcome::Inspected, ReasonCode::Okay),
            0,
            0,
            0,
        ),
        (
            RepositoryInspectionOutcome::FetchFailed,
            (RepositoryOutcome::FetchFailed, ReasonCode::FetchFailed),
            1,
            1,
            0,
        ),
        (
            RepositoryInspectionOutcome::FetchTimedOut,
            (RepositoryOutcome::FetchTimedOut, ReasonCode::FetchTimedOut),
            1,
            1,
            0,
        ),
        (
            RepositoryInspectionOutcome::MalformedPorcelain,
            (RepositoryOutcome::Malformed, ReasonCode::MalformedPorcelain),
            1,
            0,
            1,
        ),
        (
            RepositoryInspectionOutcome::IntegrationFailed,
            (RepositoryOutcome::IntegrationFailed, ReasonCode::WorktrunkFailed),
            1,
            0,
            0,
        ),
        (
            RepositoryInspectionOutcome::InspectionFailed,
            (RepositoryOutcome::Malformed, ReasonCode::InvalidGitMetadata),
            1,
            0,
            1,
        ),
    ] {
        assert_eq!(repository_result(outcome), report);
        let summary = update_repository_summary(empty, outcome);
        assert_eq!(summary.operational_failures, failures);
        assert_eq!(summary.fetch_failures, fetches);
        assert_eq!(summary.malformed_states, malformed);
    }
}

#[test]
fn decisions_are_counted() {
    let empty = Summary::empty(CommandName::Prune, true);
    let count = |outcome, failed| {
        update_worktree_summary(
            empty,
            &WorktreeDecision {
                outcome,
                reason_code: ReasonCode::MainWorktree,
                message: None,
                failed,
            },
        )
    };
    assert_eq!(count(WorktreeOutcome::Candidate, false).candidates, 1);
    assert_eq!(count(WorktreeOutcome::Refused, false).refusals, 1);
    assert_eq!(count(WorktreeOutcome::Refused, false).operational_failures, 0);
    assert_eq!(count(WorktreeOutcome::Refused, true).operational_failures, 1);
    assert_eq!(count(WorktreeOutcome::Malformed, false).malformed_states, 1);
    assert_eq!(count(WorktreeOutcome::Removed, false).removals, 1);
    assert_eq!(count(WorktreeOutcome::Retained, false), empty);
    assert_eq!(count(WorktreeOutcome::Skipped, false), empty);
}

#[test]
fn issues_and_branches_have_reasons() {
    for (kind, reason) in [
        (DiscoveryIssueKind::InaccessibleRoot, ReasonCode::InaccessibleRoot),
        (DiscoveryIssueKind::InaccessibleDirectory, ReasonCode::InaccessibleDirectory),
        (DiscoveryIssueKind::UnsafeCanonicalization, ReasonCode::UnsafeCanonicalization),
        (DiscoveryIssueKind::InvalidGitMetadata, ReasonCode::InvalidGitMetadata),
    ] {
        assert_eq!(reason_code(kind), reason);
    }
    for (outcome, reason) in [
        (BranchOutcome::Deleted, ReasonCode::BranchDeleted),
        (BranchOutcome::Deferred, ReasonCode::BranchDeletionNotAttempted),
        (BranchOutcome::NotAttempted, ReasonCode::BranchDeletionNotAttempted),
        (BranchOutcome::RetainedUnmerged, ReasonCode::BranchRetainedUnmerged),
        (BranchOutcome::RetainedCheckedOut, ReasonCode::BranchRetainedCheckedOut),
        (BranchOutcome::RetainedRaced, ReasonCode::BranchRetainedRaced),
        (BranchOutcome::RetainedFailed, ReasonCode::BranchDeletionFailed),
    ] {
        assert_eq!(branch_outcome_reason(outcome), reason);
    }
}

#[test]
fn removals_become_decisions() {
    let removed = apply_removal(Ok(RemovalResult {
        branch_outcome: BranchOutcome::RetainedCheckedOut,
        branch_checked_out_at: Some(path("/elsewhere")),
    }));
    assert_eq!(removed.outcome, WorktreeOutcome::Removed);
    assert_eq!(
        removed.message.as_deref(),
        Some("branch is also checked out at /elsewhere")
    );
    assert!(!removed.failed);
    let kept = apply_removal(Ok(RemovalResult {
        branch_outcome: BranchOutcome::RetainedFailed,
        branch_checked_out_at: None,
    }));
    assert!(kept.failed);
    assert_eq!(kept.message, None);
    let refused = apply_removal(Err(RemovalError::TimedOut));
    assert_eq!(refused.outcome, WorktreeOutcome::Refused);
    assert_eq!(refused.reason_code, ReasonCode::RemovalFailed);
    assert_eq!(refused.message.as_deref(), Some("Worktrunk removal timed out"));
    assert!(refused.failed);
}

fn entry(place: &str, branch: Option<&str>) -> InventoryWorktree {
    InventoryWorktree {
        path: path(place),
        head: "abc".to_owned(),
        branch: branch.map(str::to_owned),
        detached: false,
        prunable: false,
        bare: false,
        locked: false,
    }
}

#[test]
fn inventories_refuse_for_every_reason() {
    let candidate = WorktreeInspection {
        path: path("/w"),
        head: "abc".to_owned(),
        branch: Some("refs/heads/f".to_owned()),
        classification: WorktreeClassification::IntegratedAncestor,
    };
    let check = |change: &dyn Fn(&mut InventoryWorktree), more: Vec<InventoryWorktree>| {
        let mut current = entry("/w", Some("refs/heads/f"));
        change(&mut current);
        let mut inventory = vec![entry("/r", Some("refs/heads/main")), current];
        inventory.extend(more);
        check_inventory(&inventory, &candidate).map(|refusal| refusal.reason_code)
    };
    assert_eq!(check(&|_| {}, Vec::new()), None);
    assert_eq!(check(&|entry| entry.locked = true, Vec::new()), Some(ReasonCode::LockedWorktree));
    assert_eq!(
        check(&|entry| entry.detached = true, Vec::new()),
        Some(ReasonCode::DetachedWorktree)
    );
    assert_eq!(
        check(&|entry| entry.branch = None, Vec::new()),
        Some(ReasonCode::DetachedWorktree)
    );
    assert_eq!(
        check(&|entry| entry.prunable = true, Vec::new()),
        Some(ReasonCode::InvalidGitMetadata)
    );
    assert_eq!(check(&|entry| entry.bare = true, Vec::new()), Some(ReasonCode::InvalidGitMetadata));
    assert_eq!(
        check(&|entry| entry.head = "def".to_owned(), Vec::new()),
        Some(ReasonCode::WorktreeChanged)
    );
    assert_eq!(
        check(&|entry| entry.branch = Some("refs/heads/g".to_owned()), Vec::new()),
        Some(ReasonCode::WorktreeChanged)
    );
    assert_eq!(
        check(&|_| {}, vec![entry("/v", Some("refs/heads/f"))]),
        Some(ReasonCode::CheckedOutMultipleTimes)
    );
    assert_eq!(
        check(&|_| {}, vec![entry("/w/", None)]),
        Some(ReasonCode::SafetyInspectionFailed)
    );
    assert_eq!(
        check(&|entry| entry.path = path("/x"), Vec::new()),
        Some(ReasonCode::WorktreeMissing)
    );
    let main = check_inventory(&vec![entry("/w", Some("refs/heads/f"))], &candidate);
    assert_eq!(main.unwrap().reason_code, ReasonCode::MainWorktree);
}

#[test]
fn usage_errors_tell_what_is_wrong() {
    let parse = |words: &[&str]| {
        Cli::try_parse_from(&words.iter().map(|word| word.to_string()).collect::<Vec<_>>())
    };
    assert_eq!(parse(&["lop"]), Err(UsageError::MissingCommand));
    assert_eq!(parse(&["lop", "go"]), Err(UsageError::UnknownCommand("go".to_owned())));
    assert_eq!(
        parse(&["lop", "scan", "x"]),
        Err(UsageError::UnexpectedArgument("x".to_owned()))
    );
    assert_eq!(parse(&["lop", "schedule"]), Err(UsageError::MissingCommand));
    assert!(parse(&["lop", "prune", "--yes", "--yes"]).is_err());
}

fn exited(code: i32, stdout: &str, stderr: &str) -> Reply {
    Reply::Command(CommandResult::Exited {
        code: Some(code),
        stdout: stdout.as_bytes().to_vec(),
        stderr: stderr.as_bytes().to_vec(),
    })
}

#[test]
fn failed_lists_are_reported() {
    let replies = vec![exited(0, "wt 0.70.1", ""), exited(3, "", "boom\n")];
    let candidates = vec![IntegrationCandidate {
        path: path("/w"),
        branch: "refs/heads/f".to_owned(),
        head: "abc".to_owned(),
    }];
    match prove_integrations(&path("/r"), &candidates, 1, &replies, 0) {
        Step::Done(Err(error), 2) => {
            assert!(matches!(error, AdapterError::ListCommand(_)));
            assert!(error.message().contains("boom"));
        }
        step => panic!("unexpected {step:?}"),
    }
    assert_eq!(
        prove_integrations(&path("/r"), &Vec::new(), 1, &Vec::new(), 0),
        Step::Done(Ok(Vec::new()), 0)
    );
}

#[test]
fn inspections_fetch_before_they_list() {
    match inspect_repository(&path("/r"), 9, &Vec::new(), 0) {
        Step::Ask(Request::Run(line)) => {
            assert_eq!(
                line.arguments,
                ["fetch", "--all", "--prune", "--no-recurse-submodules"]
            );
            assert_eq!(line.timeout, Some(9));
            assert_eq!(line.removed, ["GIT_DIR", "GIT_WORK_TREE"]);
        }
        step => panic!("unexpected {step:?}"),
    }
    let replies = vec![exited(0, "", ""), exited(128, "", "not a repository")];
    match inspect_repository(&path("/r"), 9, &replies, 0) {
        Step::Done(found, 2) => {
            assert_eq!(found.outcome, RepositoryInspectionOutcome::InspectionFailed);
            assert!(found.worktrees.is_empty());
            assert!(found.message.unwrap().contains("not a repository"));
        }
        step => panic!("unexpected {step:?}"),
    }
    let replies = vec![
        Reply::Command(CommandResult::TimedOut),
        exited(0, "worktree /r\0HEAD abc\0branch refs/heads/main\0\0", ""),
    ];
    match inspect_repository(&path("/r"), 9, &replies, 0) {
        Step::Done(found, 2) => {
            assert_eq!(
                found.message.as_deref(),
                Some("git fetch exceeded timeout of 9 seconds")
            );
        }
        step => panic!("unexpected {step:?}"),
    }
}
