//! What a run does in each of its phases, told of the records and totals.
use crate::cli::{Cli, Command};
use crate::command::{ReplyView, RequestView};
use crate::config;
use crate::config::RawConfigView;
use crate::decision;
use crate::decision::{StaleDecisionView, WorktreeDecisionView};
use crate::discovery;
use crate::flow::Flow;
use crate::inspection::RepositoryInspectionView;
use crate::output;
use crate::output::{CommandName, EventView, TOOL_VERSION};
use crate::paths::AppPathsView;
use crate::run;
use crate::run::{ErrorView, PhaseView, RunView, WorkView};
use crate::state::{ClassificationStateView, RepositoryStateView, StateView};
use crate::text;
use vstd::prelude::*;

verus! {

/// Removals are applied by `prune --yes` and by nothing else, and a run is told as what it is.
pub proof fn law_only_a_confirmed_prune_applies(cli: Cli)
    ensures
        run::applies(cli) <==> cli.command == (Command::Prune { yes: true }),
        match cli.command {
            Command::Scan => run::run_command(cli.command) == Some((CommandName::Scan, false)),
            Command::Prune { yes } => run::run_command(cli.command) == Some(
                (CommandName::Prune, yes),
            ),
            Command::Schedule { .. } => run::run_command(cli.command) is None,
        },
{
}

/// A run starts with the lock, the configuration, the state and the record that it started, in this
/// order; what fails on the way ends it with the error of that step.
pub proof fn law_runs_start_in_order(
    cli: Cli,
    paths: AppPathsView,
    home: Option<Seq<u8>>,
    raw: RawConfigView,
    document: Option<Seq<u8>>,
)
    requires
        config::validated(raw, home) is Ok,
        document is None,
    ensures
        ({
            let locked = ReplyView::Lock(Ok(()));
            let configured = ReplyView::Config(Ok(raw));
            let remembered = ReplyView::File(Ok(document));
            let start = |replies: Seq<ReplyView>| run::start_flow(cli, paths, home, replies);
            &&& start(seq![]) matches Flow::Ask(RequestView::AcquireLock { path, .. }) && path
                == paths.lock_file
            &&& start(seq![locked]) matches Flow::Ask(RequestView::LoadConfig(path)) && path
                == paths.config_file
            &&& start(seq![locked, configured]) matches Flow::Ask(RequestView::ReadFile(path))
                && path == paths.state_file
            &&& cli.command is Schedule ==> start(seq![locked, configured, remembered]) == Flow::<
                Result<(config::ConfigView, StateView, CommandName, bool), ErrorView>,
            >::Done(Err(ErrorView::ScheduleCommand), 3)
            &&& !(cli.command is Schedule) ==> (start(seq![locked, configured, remembered])
                matches Flow::Ask(
                RequestView::Emit(
                    EventView::RunStarted { schema_version, tool_version, command, apply },
                ),
            ) && schema_version == 2 && tool_version == TOOL_VERSION@ && apply == run::applies(cli)
                && (command is Prune <==> cli.command is Prune))
            &&& !(cli.command is Schedule) ==> (start(
                seq![locked, configured, remembered, ReplyView::Written(Ok(()))],
            ) matches Flow::Done(Ok((config, state, command, apply)), _) && Ok::<
                config::ConfigView,
                config::ConfigErrorView,
            >(config) == config::validated(raw, home) && state.repositories == Map::<
                Seq<char>,
                RepositoryStateView,
            >::empty() && apply == run::applies(cli))
        }),
{
}

/// The totals start with the number of repositories and of problems that the search has found, and
/// with nothing else; every repository is worked on from the first to the last, and then the
/// problems are reported, the state is saved, and the totals are reported.
pub proof fn law_runs_go_through_what_was_found(work: WorkView)
    requires
        discovery::search_result(work.search).repositories.len() <= u64::MAX,
        discovery::search_result(work.search).issues.len() <= u64::MAX,
    ensures
        ({
            let found = discovery::search_result(work.search);
            let totals = |next: WorkView|
                next.summary.repositories_scanned == found.repositories.len()
                    && next.summary.operational_failures == found.issues.len()
                    && next.summary.removals == work.summary.removals && next.summary.candidates
                    == work.summary.candidates && next.discovery == found;
            match run::leave_search(work) {
                PhaseView::Inspecting(next) => totals(next) && next.repository == 0
                    && found.repositories.len() > 0,
                PhaseView::Reporting(next) => totals(next) && next.issue == 0
                    && found.repositories.len() == 0 && found.issues.len() > 0,
                PhaseView::Saving(next) => totals(next) && found.repositories.len() == 0
                    && found.issues.len() == 0,
                _ => false,
            }
        }),
{
}

/// An inspected repository is reported before its worktrees are, under its path and its Git common
/// directory, and its outcome is counted.
pub proof fn law_repositories_are_reported_and_counted(
    work: WorkView,
    inspection: RepositoryInspectionView,
)
    ensures
        run::repository_event(run::current_repository(work), inspection)
            matches EventView::Repository {
            path,
            git_common_directory,
            outcome,
            reason_code,
            message,
            ..
        } && path == work.discovery.repositories[work.repository as int].path
            && git_common_directory == Some(
            work.discovery.repositories[work.repository as int].git_common_directory,
        ) && (outcome, reason_code) == decision::repository_report(inspection.outcome) && message
            == inspection.message,
        ({
            let next = run::after_inspection(work, inspection);
            &&& next.summary == decision::count_repository(work.summary, inspection.outcome)
            &&& next.inspection == inspection
            &&& next.worktree == 0
            &&& next.repository == work.repository
            &&& next.state == work.state
        }),
{
}

/// A decision on a worktree is reported once it is made, as what it is, and after that counted and
/// remembered; then the next worktree has its turn.
pub proof fn law_decisions_are_reported_counted_and_remembered(
    run: RunView,
    work: WorkView,
    made: WorktreeDecisionView,
)
    requires
        run.phase == PhaseView::Deciding(work),
        work.repository < work.discovery.repositories.len(),
        work.worktree < work.inspection.worktrees.len() <= usize::MAX,
        work.summary.worktrees_inspected < u64::MAX,
        decision::decide_flow(
            work.discovery.repositories[work.repository as int].path,
            work.inspection.worktrees[work.worktree as int],
            work.config.check_processes,
            work.config.fetch_timeout_seconds,
            run.cli.command == (Command::Prune { yes: true }),
            run.replies,
            0,
        ) == Flow::<WorktreeDecisionView>::Done(made, run.replies.len() as int),
        decision::decide_flow(
            work.discovery.repositories[work.repository as int].path,
            work.inspection.worktrees[work.worktree as int],
            work.config.check_processes,
            work.config.fetch_timeout_seconds,
            run.cli.command == (Command::Prune { yes: true }),
            run.replies.push(ReplyView::Written(Ok(()))),
            0,
        ) == Flow::<WorktreeDecisionView>::Done(made, run.replies.len() as int),
    ensures
        ({
            let repository = work.discovery.repositories[work.repository as int];
            let worktree = work.inspection.worktrees[work.worktree as int];
            let key = text::lossy_text(worktree.path);
            let known = run::previous_classifications(work.state, repository.git_common_directory);
            let same = known.contains_key(key) && known[key].classification == output::outcome_name(
                made.outcome,
            ) && known[key].reason_code == output::reason_name(made.reason_code);
            &&& run::run_request(run) matches Some(
                RequestView::Emit(
                    EventView::Worktree {
                        schema_version,
                        repository: told,
                        path,
                        outcome,
                        reason_code,
                        classification_changed,
                        message,
                    },
                ),
            ) && schema_version == 2 && told == repository.path && path == worktree.path && outcome
                == made.outcome && reason_code == made.reason_code && message == made.message && (
            classification_changed <==> !same)
            &&& match run::run_advance(run, ReplyView::Written(Ok(()))).phase {
                PhaseView::Deciding(next) => turned(work, next, made)
                    && next.worktree < work.inspection.worktrees.len(),
                PhaseView::Reconciling(next) => turned(work, next, made) && next.worktree
                    == work.inspection.worktrees.len(),
                _ => false,
            }
        }),
{
}

/// Whether the turn of a worktree is over: it is counted and remembered, and the next one has its
/// turn.
pub open spec fn turned(work: WorkView, next: WorkView, made: WorktreeDecisionView) -> bool {
    let key = text::lossy_text(work.inspection.worktrees[work.worktree as int].path);
    &&& next.worktree == work.worktree + 1
    &&& next.repository == work.repository
    &&& next.inspection == work.inspection
    &&& next.state == work.state
    &&& next.summary.worktrees_inspected == work.summary.worktrees_inspected + 1
    &&& next.summary.removals == decision::count_decision(work.summary, made).removals
    &&& next.summary.refusals == decision::count_decision(work.summary, made).refusals
    &&& next.summary.candidates == decision::count_decision(work.summary, made).candidates
    &&& next.summary.malformed_states == decision::count_decision(
        work.summary,
        made,
    ).malformed_states
    &&& next.summary.operational_failures == decision::count_decision(
        work.summary,
        made,
    ).operational_failures
    &&& next.current.contains_key(key)
    &&& next.current[key].classification == output::outcome_name(made.outcome)
    &&& next.current[key].reason_code == output::reason_name(made.reason_code)
    &&& forall|other: Seq<char>|
        other != key ==> (#[trigger] next.current.contains_key(other) <==> work.current.contains_key(
            other,
        )) && next.current[other] == work.current[other]
}

/// The end of a run: the state is saved where it was loaded from, then the totals are reported and
/// the output is handed on, and the totals are what the run returns.
pub proof fn law_runs_end_with_their_totals(run: RunView, work: WorkView)
    ensures
        run.phase == PhaseView::Saving(work) ==> {
            &&& run::run_request(run) matches Some(RequestView::SaveState { path, state, .. })
                && path == run.paths.state_file && state == work.state
            &&& run::run_advance(run, ReplyView::Saved(Ok(()))).phase == PhaseView::Summarizing(
                work,
            )
        },
        run.phase == PhaseView::Summarizing(work) && run.replies.len() == 0 ==> {
            let told = run::run_advance(run, ReplyView::Written(Ok(())));
            &&& run::run_request(run) == Some(
                RequestView::Emit(EventView::Summary { summary: work.summary }),
            )
            &&& run::run_request(told) == Some(RequestView::Flush)
            &&& run::run_advance(told, ReplyView::Written(Ok(()))).phase == PhaseView::Finished(
                Ok(work.summary),
            )
        },
{
}

/// The decisions on workspaces are reported one by one, in order.
pub proof fn law_decisions_on_workspaces_are_reported_in_order(
    work: WorkView,
    decisions: Seq<StaleDecisionView>,
    i: int,
    replies: Seq<ReplyView>,
    at: int,
)
    requires
        0 <= i < decisions.len(),
        0 <= at <= replies.len(),
    ensures
        at == replies.len() ==> (run::emit_all_flow(work, decisions, i, replies, at)
            matches Flow::Ask(
            RequestView::Emit(EventView::Worktree { path, outcome, reason_code, message, .. }),
        ) && path == decisions[i].path && outcome == decisions[i].decision.outcome && reason_code
            == decisions[i].decision.reason_code && message == decisions[i].decision.message),
        at < replies.len() && replies[at] == ReplyView::Written(Ok(())) ==> run::emit_all_flow(
            work,
            decisions,
            i,
            replies,
            at,
        ) == run::emit_all_flow(work, decisions, i + 1, replies, at + 1),
{
}

/// Each problem of the search is reported under its path, as what it is, and then the next one.
pub proof fn law_problems_are_reported_in_order(run: RunView, work: WorkView)
    requires
        run.phase == PhaseView::Reporting(work),
        work.issue < work.discovery.issues.len() <= usize::MAX,
    ensures
        ({
            let issue = work.discovery.issues[work.issue as int];
            run::run_request(run) matches Some(
                RequestView::Emit(EventView::DiscoveryFailure { path, reason_code, message, .. }),
            ) && path == issue.path && message == issue.message && reason_code
                == decision::issue_reason(issue.kind)
        }),
        ({
            let next = WorkView { issue: (work.issue + 1) as usize, ..work };
            run::run_advance(run, ReplyView::Written(Ok(()))).phase == if work.issue + 1
                < work.discovery.issues.len() {
                PhaseView::Reporting(next)
            } else {
                PhaseView::Saving(next)
            }
        }),
{
}

/// The work on a repository ends with what was decided being remembered under its Git common
/// directory, in place of what was remembered before, and with the next repository.
pub proof fn law_repositories_are_remembered(
    work: WorkView,
    failed: bool,
    decisions: Seq<StaleDecisionView>,
)
    requires
        work.repository < work.discovery.repositories.len() <= usize::MAX,
        work.summary.operational_failures < u64::MAX,
        decisions.len() == 0,
    ensures
        ({
            let next = run::after_reconciliation(
                work,
                decision::ReconciliationView { failed, decisions },
            );
            let key = text::lossy_text(
                work.discovery.repositories[work.repository as int].git_common_directory,
            );
            &&& next.repository == work.repository + 1
            &&& next.state.repositories.contains_key(key)
            &&& next.state.repositories[key].last_classifications == work.current
            &&& forall|other: Seq<char>|
                other != key ==> (#[trigger] next.state.repositories.contains_key(other)
                    <==> work.state.repositories.contains_key(other))
                    && next.state.repositories[other] == work.state.repositories[other]
            &&& next.current == Map::<Seq<char>, ClassificationStateView>::empty()
            &&& next.summary.operational_failures == work.summary.operational_failures + if failed {
                1int
            } else {
                0
            }
            &&& next.summary.removals == work.summary.removals
        }),
{
}

/// Every worktree that Git lists is one that workspaces are held against.
pub proof fn law_listed_worktrees_are_not_gone(work: WorkView, i: int)
    requires
        0 <= i < work.inspection.worktrees.len(),
    ensures
        run::inventory_paths(work.inspection.worktrees).len() == work.inspection.worktrees.len(),
        run::inventory_paths(work.inspection.worktrees)[i] == work.inspection.worktrees[i].path,
{
}

} // verus!
