//! What holds of all decisions.
use crate::cleanup;
use crate::cleanup::SafetyRefusalView;
use crate::command::{ReplyView, RequestView};
use crate::decision;
use crate::decision::{StaleDecisionView, WorktreeDecisionView};
use crate::flow::Flow;
use crate::herdr;
use crate::herdr::{CandidateStatusView, StaleWorkspaceStatusView, StaleWorkspaceView};
use crate::inspection::{WorktreeClassification, WorktreeInspectionView};
use crate::integration;
use crate::output;
use crate::output::Summary;
use vstd::prelude::*;

verus! {

/// Only a positive proof of integration makes a worktree a candidate; every other classification
/// retains it, passes it over, or reports it.
pub proof fn law_only_integrated_worktrees_are_candidates(classification: WorktreeClassification)
    ensures
        decision::worktree_report(classification).0 is Candidate <==> integration::integrated(
            classification,
        ),
        !(decision::worktree_report(classification).0 is Removed),
{
}

/// A worktree that is not integrated is decided on at once, without a request: in particular each
/// one of a repository whose fetch failed, and each one whose integration could not be proved.
pub proof fn law_other_worktrees_are_left_alone(
    repository: Seq<u8>,
    worktree: WorktreeInspectionView,
    check_processes: bool,
    timeout: u64,
    apply: bool,
    replies: Seq<ReplyView>,
    at: int,
)
    requires
        !integration::integrated(worktree.classification),
    ensures
        decision::decide_flow(repository, worktree, check_processes, timeout, apply, replies, at)
            == Flow::Done(
            decision::plain_decision(
                decision::worktree_report(worktree.classification).0,
                decision::worktree_report(worktree.classification).1,
            ),
            at,
        ),
{
}

/// A decision about which nothing failed leaves the count of failures as it is, whatever was
/// refused; so refusals for safety do not make a run fail.
pub proof fn law_safe_refusals_do_not_fail_the_run(
    summary: Summary,
    decision: WorktreeDecisionView,
)
    ensures
        !decision.failed ==> decision::count_decision(summary, decision).operational_failures
            == summary.operational_failures,
        decision.failed ==> decision::count_decision(summary, decision).operational_failures == output::raised(
            summary.operational_failures,
            1,
        ),
{
}

/// Whether a request removes a worktree.
pub open spec fn removes(request: RequestView) -> bool {
    request matches RequestView::Run(line) && line.program == "wt"@ && line.arguments.len() == 7
        && line.arguments[2] == "remove"@
}

/// Whether a request closes a workspace.
pub open spec fn closes(request: RequestView) -> bool {
    request matches RequestView::Run(line) && line.program == "herdr"@ && line.arguments.len() >= 3
        && line.arguments[line.arguments.len() - 3] == "workspace"@
        && line.arguments[line.arguments.len() - 2] == "close"@
}

/// The words that tell requests apart are different.
pub(crate) proof fn lemma_words()
    ensures
        "git"@ != "wt"@,
        "git"@ != "herdr"@,
        "wt"@ != "herdr"@,
        "session"@ != "workspace"@,
        "api"@ != "close"@,
        "--pane"@ != "close"@,
        "list"@ != "close"@,
        "/usr/sbin/lsof"@ != "wt"@,
        "/usr/sbin/lsof"@ != "herdr"@,
{
    reveal_strlit("git");
    reveal_strlit("wt");
    reveal_strlit("herdr");
    reveal_strlit("session");
    reveal_strlit("workspace");
    reveal_strlit("api");
    reveal_strlit("close");
    reveal_strlit("--pane");
    reveal_strlit("list");
    reveal_strlit("/usr/sbin/lsof");
    assert("git"@.len() != "wt"@.len() && "git"@.len() != "herdr"@.len());
    assert("wt"@.len() != "herdr"@.len());
    assert("session"@.len() != "workspace"@.len());
    assert("api"@.len() != "close"@.len());
    assert("--pane"@.len() != "close"@.len());
    assert("list"@.len() != "close"@.len());
    assert("/usr/sbin/lsof"@.len() == 14);
}

/// A request that only looks at Herdr removes nothing and closes nothing.
pub(crate) proof fn lemma_herdr_looks(request: RequestView)
    requires
        herdr::laws::only_looks_at_herdr(request),
    ensures
        !removes(request),
        !closes(request),
        !(request is Emit),
{
    lemma_words();
    if let RequestView::Run(line) = request {
        if line.arguments == seq!["session"@, "list"@, "--json"@] {
            assert(line.arguments[0] == "session"@);
        }
        if closes(request) {
            let n = line.arguments.len();
            if n >= 4 && line.arguments[n - 4] == "pane"@ && line.arguments[n - 3]
                == "process-info"@ {
                reveal_strlit("process-info");
                reveal_strlit("workspace");
                assert("process-info"@.len() != "workspace"@.len());
            }
        }
    }
}

proof fn lemma_check_harmless(
    repository: Seq<u8>,
    worktree: WorktreeInspectionView,
    check_processes: bool,
    timeout: u64,
    ignored: Seq<u32>,
    replies: Seq<ReplyView>,
    at: int,
)
    ensures
        cleanup::check_flow(repository, worktree, check_processes, timeout, ignored, replies, at)
            matches Flow::Ask(request) ==> !removes(request) && !closes(request) && !(request
            is Emit),
{
    lemma_words();
    cleanup::law_check_only_looks(
        repository,
        worktree,
        check_processes,
        timeout,
        ignored,
        replies,
        at,
    );
}

proof fn lemma_recheck(
    repository: Seq<u8>,
    worktree: WorktreeInspectionView,
    check_processes: bool,
    timeout: u64,
    replies: Seq<ReplyView>,
    at: int,
)
    ensures
        decision::recheck_flow(repository, worktree, check_processes, timeout, replies, at)
            matches Flow::Ask(request) ==> !removes(request) && !closes(request) && !(request
            is Emit),
        decision::recheck_flow(repository, worktree, check_processes, timeout, replies, at)
            matches Flow::Done(Ok(()), next) ==> exists|from: int|
            at <= from && #[trigger] passes_gates(
                repository,
                worktree,
                check_processes,
                timeout,
                replies,
                from,
                next,
            ),
        decision::recheck_flow(repository, worktree, check_processes, timeout, replies, at)
            matches Flow::Done(Err(decision), _) ==> decision.outcome is Refused,
{
    herdr::laws::law_candidate_inspection_only_looks(worktree.path, timeout, replies, at);
    match herdr::inspect_candidate_flow(worktree.path, timeout, replies, at) {
        Flow::Ask(request) => lemma_herdr_looks(request),
        Flow::Done(Ok(CandidateStatusView::Clear(found)), next) => {
            lemma_check_harmless(
                repository,
                worktree,
                check_processes,
                timeout,
                Seq::empty(),
                replies,
                next,
            );
            if found.workspaces.len() == 0 {
                if let Flow::Done(Ok(()), end) = decision::final_check_flow(
                    repository,
                    worktree,
                    check_processes,
                    timeout,
                    replies,
                    next,
                ) {
                    assert(herdr_is_quiet(worktree.path, timeout, replies, at, next));
                    assert(passes_check(
                        repository,
                        worktree,
                        check_processes,
                        timeout,
                        replies,
                        next,
                        end,
                    ));
                    assert(passes_gates(
                        repository,
                        worktree,
                        check_processes,
                        timeout,
                        replies,
                        at,
                        end,
                    ));
                }
            }
        },
        _ => {},
    }
}

/// Whether the replies from `from` up to `to` make a full recheck of the worktree succeed, in
/// which every process counts.
pub open spec fn passes_check(
    repository: Seq<u8>,
    worktree: WorktreeInspectionView,
    check_processes: bool,
    timeout: u64,
    replies: Seq<ReplyView>,
    from: int,
    to: int,
) -> bool {
    cleanup::check_flow(
        repository,
        worktree,
        check_processes,
        timeout,
        Seq::empty(),
        replies,
        from,
    ) == Flow::<Result<(), SafetyRefusalView>>::Done(Ok(()), to)
}

/// Whether the replies from `from` up to `to` make a look at Herdr find that it is not there, or
/// that nothing in it belongs to the worktree.
pub open spec fn herdr_is_quiet(
    path: Seq<u8>,
    timeout: u64,
    replies: Seq<ReplyView>,
    from: int,
    to: int,
) -> bool {
    herdr::inspect_candidate_flow(path, timeout, replies, from) matches Flow::Done(Ok(status), next)
        && next == to && (status is Unavailable || (status matches CandidateStatusView::Clear(found)
        && found.workspaces.len() == 0))
}

/// Whether the replies from `from` up to `to` are a quiet look at Herdr and then a full recheck of
/// the worktree that succeeds.
pub open spec fn passes_gates(
    repository: Seq<u8>,
    worktree: WorktreeInspectionView,
    check_processes: bool,
    timeout: u64,
    replies: Seq<ReplyView>,
    from: int,
    to: int,
) -> bool {
    exists|middle: int|
        #![auto]
        herdr_is_quiet(worktree.path, timeout, replies, from, middle) && passes_check(
            repository,
            worktree,
            check_processes,
            timeout,
            replies,
            middle,
            to,
        )
}

proof fn lemma_prepare(
    repository: Seq<u8>,
    worktree: WorktreeInspectionView,
    check_processes: bool,
    timeout: u64,
    apply: bool,
    candidate: WorktreeDecisionView,
    replies: Seq<ReplyView>,
    at: int,
)
    requires
        candidate.outcome is Candidate,
    ensures
        decision::prepare_flow(
            repository,
            worktree,
            check_processes,
            timeout,
            apply,
            candidate,
            replies,
            at,
        ) matches Flow::Ask(request) ==> !removes(request) && (closes(request) ==> apply)
            && !(request is Emit),
        decision::prepare_flow(
            repository,
            worktree,
            check_processes,
            timeout,
            apply,
            candidate,
            replies,
            at,
        ) matches Flow::Done(Ok(()), next) ==> apply && exists|from: int|
            at <= from && #[trigger] passes_gates(
                repository,
                worktree,
                check_processes,
                timeout,
                replies,
                from,
                next,
            ),
        decision::prepare_flow(
            repository,
            worktree,
            check_processes,
            timeout,
            apply,
            candidate,
            replies,
            at,
        ) matches Flow::Done(Err(decision), _) ==> decision.outcome is Refused
            || decision.outcome is Candidate,
{
    lemma_words();
    lemma_check_harmless(repository, worktree, false, timeout, Seq::empty(), replies, at);
    if let Flow::Done(Ok(()), next) = cleanup::check_flow(
        repository,
        worktree,
        false,
        timeout,
        Seq::empty(),
        replies,
        at,
    ) {
        let looked = next;
        herdr::laws::law_candidate_inspection_only_looks(worktree.path, timeout, replies, next);
        herdr::laws::lemma_candidate_inspection_goes_forward(worktree.path, timeout, replies, next);
        match herdr::inspect_candidate_flow(worktree.path, timeout, replies, next) {
            Flow::Ask(request) => lemma_herdr_looks(request),
            Flow::Done(Ok(CandidateStatusView::Unavailable), next) => {
                lemma_check_harmless(
                    repository,
                    worktree,
                    check_processes,
                    timeout,
                    Seq::empty(),
                    replies,
                    next,
                );
                if let Flow::Done(Ok(()), end) = decision::final_check_flow(
                    repository,
                    worktree,
                    check_processes,
                    timeout,
                    replies,
                    next,
                ) {
                    assert(herdr_is_quiet(worktree.path, timeout, replies, looked, next));
                    assert(passes_check(
                        repository,
                        worktree,
                        check_processes,
                        timeout,
                        replies,
                        next,
                        end,
                    ));
                    assert(passes_gates(
                        repository,
                        worktree,
                        check_processes,
                        timeout,
                        replies,
                        looked,
                        end,
                    ));
                }
            },
            Flow::Done(Ok(CandidateStatusView::Clear(coordination)), next) => {
                lemma_check_harmless(
                    repository,
                    worktree,
                    check_processes,
                    timeout,
                    coordination.processes,
                    replies,
                    next,
                );
                if let Flow::Done(Ok(()), next) = cleanup::check_flow(
                    repository,
                    worktree,
                    check_processes,
                    timeout,
                    coordination.processes,
                    replies,
                    next,
                ) {
                    if apply {
                        lemma_recheck(
                            repository,
                            worktree,
                            check_processes,
                            timeout,
                            replies,
                            next,
                        );
                        if coordination.workspaces.len() > 0 {
                            herdr::laws::law_retirement_closes_nothing_else(
                                coordination,
                                timeout,
                                replies,
                                next,
                            );
                            herdr::laws::lemma_retirement_goes_forward(
                                coordination,
                                timeout,
                                replies,
                                next,
                            );
                            if let Flow::Done(Ok(()), next) = herdr::retirement::retire_flow(
                                coordination.session,
                                coordination.workspaces,
                                0,
                                Seq::empty(),
                                timeout,
                                replies,
                                next,
                            ) {
                                lemma_recheck(
                                    repository,
                                    worktree,
                                    check_processes,
                                    timeout,
                                    replies,
                                    next,
                                );
                            }
                        }
                    }
                }
            },
            _ => {},
        }
    }
}

/// Without the order to apply, the decision about a worktree neither removes anything nor closes
/// a workspace nor reports anything by itself, and is never that the worktree was removed.
pub proof fn law_dry_decisions_change_nothing(
    repository: Seq<u8>,
    worktree: WorktreeInspectionView,
    check_processes: bool,
    timeout: u64,
    replies: Seq<ReplyView>,
    at: int,
)
    ensures
        decision::decide_flow(repository, worktree, check_processes, timeout, false, replies, at)
            matches Flow::Ask(request) ==> !removes(request) && !closes(request) && !(request
            is Emit),
        decision::decide_flow(repository, worktree, check_processes, timeout, false, replies, at)
            matches Flow::Done(decision, _) ==> !(decision.outcome is Removed),
{
    let (outcome, reason_code) = decision::worktree_report(worktree.classification);
    if outcome is Candidate {
        lemma_prepare(
            repository,
            worktree,
            check_processes,
            timeout,
            false,
            decision::plain_decision(outcome, reason_code),
            replies,
            at,
        );
    }
}

/// A worktree is removed only where removals are to be applied, its integration was proved, and
/// the replies that came last since the decision began were a look at Herdr which found nothing that belongs to it, and then
/// a full recheck of it that succeeded, with every process counted. What is removed is that
/// worktree.
pub proof fn law_removal_only_after_all_gates(
    repository: Seq<u8>,
    worktree: WorktreeInspectionView,
    check_processes: bool,
    timeout: u64,
    apply: bool,
    replies: Seq<ReplyView>,
    at: int,
    request: RequestView,
)
    requires
        decision::decide_flow(repository, worktree, check_processes, timeout, apply, replies, at)
            == Flow::<WorktreeDecisionView>::Ask(request),
        removes(request),
        0 <= at <= replies.len(),
    ensures
        apply,
        integration::integrated(worktree.classification),
        request == RequestView::Run(cleanup::remove_command(repository, worktree.path, timeout)),
        exists|from: int, to: int|
            at <= from && to >= replies.len() && #[trigger] passes_gates(
                repository,
                worktree,
                check_processes,
                timeout,
                replies,
                from,
                to,
            ),
{
    let (outcome, reason_code) = decision::worktree_report(worktree.classification);
    let plain = decision::plain_decision(outcome, reason_code);
    lemma_prepare(
        repository,
        worktree,
        check_processes,
        timeout,
        apply,
        plain,
        replies,
        at,
    );
    if let Flow::Done(Ok(()), next) = decision::prepare_flow(
        repository,
        worktree,
        check_processes,
        timeout,
        apply,
        plain,
        replies,
        at,
    ) {
        let from = choose|from: int|
            at <= from && #[trigger] passes_gates(
                repository,
                worktree,
                check_processes,
                timeout,
                replies,
                from,
                next,
            );
        assert(passes_gates(
            repository,
            worktree,
            check_processes,
            timeout,
            replies,
            from,
            next,
        ));
    }
}

/// Whether no stale workspace was decided to be removed.
pub open spec fn none_removed(decisions: Seq<StaleDecisionView>) -> bool {
    forall|k: int|
        0 <= k < decisions.len() ==> !((#[trigger] decisions[k]).decision.outcome is Removed)
}

proof fn lemma_decide_all_stale(
    git_common_directory: Seq<u8>,
    inventory: Seq<Seq<u8>>,
    stale: Seq<StaleWorkspaceView>,
    done: Seq<StaleDecisionView>,
    timeout: u64,
    apply: bool,
    replies: Seq<ReplyView>,
    at: int,
)
    requires
        done.len() <= stale.len(),
        !apply ==> none_removed(done),
    ensures
        decision::decide_all_stale_flow(
            git_common_directory,
            inventory,
            stale,
            done,
            timeout,
            apply,
            replies,
            at,
        ) matches Flow::Ask(request) ==> !removes(request) && (closes(request) ==> apply)
            && !(request is Emit),
        decision::decide_all_stale_flow(
            git_common_directory,
            inventory,
            stale,
            done,
            timeout,
            apply,
            replies,
            at,
        ) matches Flow::Done(result, _) ==> result.decisions.len() == stale.len()
            && !result.failed && (!apply ==> none_removed(result.decisions)),
    decreases stale.len() - done.len(),
{
    lemma_words();
    if done.len() < stale.len() {
        let workspace = stale[done.len() as int];
        if let CandidateStatusView::Clear(coordination) = workspace.status {
            if apply {
                herdr::laws::law_retirement_closes_nothing_else(coordination, timeout, replies, at);
                if let Flow::Done(Ok(()), next) = herdr::retirement::retire_flow(
                    coordination.session,
                    coordination.workspaces,
                    0,
                    Seq::empty(),
                    timeout,
                    replies,
                    at,
                ) {
                    herdr::laws::law_stale_inspection_only_looks(
                        git_common_directory,
                        inventory,
                        timeout,
                        replies,
                        next,
                    );
                    if let Flow::Ask(request) = herdr::stale::inspect_stale_flow(
                        git_common_directory,
                        inventory,
                        timeout,
                        replies,
                        next,
                    ) {
                        lemma_herdr_looks(request);
                    }
                }
            }
        }
        if let Flow::Done(decision, next) = decision::decide_stale_flow(
            git_common_directory,
            inventory,
            workspace,
            timeout,
            apply,
            replies,
            at,
        ) {
            lemma_decide_all_stale(
                git_common_directory,
                inventory,
                stale,
                done.push(StaleDecisionView { path: workspace.checkout_path, decision }),
                timeout,
                apply,
                replies,
                next,
            );
        }
    }
}

/// Reconciling with Herdr never removes a worktree, and closes workspaces only where removals are
/// to be applied. Without that order it decides of none that it was removed.
pub proof fn law_reconciling_removes_no_worktree(
    git_common_directory: Seq<u8>,
    inventory: Seq<Seq<u8>>,
    timeout: u64,
    apply: bool,
    replies: Seq<ReplyView>,
    at: int,
)
    ensures
        decision::reconcile_flow(git_common_directory, inventory, timeout, apply, replies, at)
            matches Flow::Ask(request) ==> !removes(request) && (closes(request) ==> apply)
            && !(request is Emit),
        decision::reconcile_flow(git_common_directory, inventory, timeout, apply, replies, at)
            matches Flow::Done(result, _) ==> (!apply ==> none_removed(result.decisions)),
{
    herdr::laws::law_stale_inspection_only_looks(
        git_common_directory,
        inventory,
        timeout,
        replies,
        at,
    );
    match herdr::stale::inspect_stale_flow(git_common_directory, inventory, timeout, replies, at) {
        Flow::Ask(request) => lemma_herdr_looks(request),
        Flow::Done(Ok(StaleWorkspaceStatusView::Inspected(stale)), next) => {
            lemma_decide_all_stale(
                git_common_directory,
                inventory,
                stale,
                Seq::empty(),
                timeout,
                apply,
                replies,
                next,
            );
        },
        _ => {},
    }
}

} // verus!
