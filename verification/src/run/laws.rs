//! What holds of all runs.
use crate::cleanup;
use crate::cli::Cli;
use crate::command;
use crate::command::{ReplyView, RequestView};
use crate::config::ConfigView;
use crate::decision;
use crate::decision::{StaleDecisionView, WorktreeDecisionView};
use crate::discovery;
use crate::discovery::DiscoveryIssueView;
use crate::flow::Flow;
use crate::inspection;
use crate::inspection::WorktreeInspectionView;
use crate::integration;
use crate::lock;
use crate::output;
use crate::output::{CommandName, EventView, Summary, OUTPUT_SCHEMA_VERSION};
use crate::paths::AppPathsView;
use crate::run;
use crate::run::{ErrorView, PhaseView, RunView, WorkView};
use crate::state::{ClassificationStateView, State, StateView};
use crate::text;
use vstd::prelude::*;

verus! {

proof fn lemma_classify_all_looks(
    repository: Seq<u8>,
    timeout: u64,
    worktrees: Seq<inspection::InventoryWorktreeView>,
    i: int,
    done: Seq<WorktreeInspectionView>,
    issue: Option<Seq<char>>,
    replies: Seq<ReplyView>,
    at: int,
)
    requires
        0 <= i,
    ensures
        inspection::classify_all_flow(
            repository,
            timeout,
            worktrees,
            i,
            done,
            issue,
            replies,
            at,
        ) matches Flow::Ask(request) ==> request matches RequestView::Run(line) && line.program
            == "git"@,
    decreases worktrees.len() - i,
{
    if i < worktrees.len() {
        match inspection::classify_flow(
            repository,
            worktrees[i],
            i == 0,
            timeout,
            replies,
            at,
        ) {
            Flow::Ask(_) => {},
            Flow::Done(found, next) => lemma_classify_all_looks(
                repository,
                timeout,
                worktrees,
                i + 1,
                done.push(inspection::inspected(worktrees[i], found.classification)),
                inspection::first_issue(issue, found.issue),
                replies,
                next,
            ),
        }
    }
}

/// Whether a request reports that a worktree was removed.
pub open spec fn reports_removal(request: RequestView) -> bool {
    request matches RequestView::Emit(EventView::Worktree { outcome, .. }) && outcome is Removed
}

proof fn lemma_inspecting_harmless(work: WorkView, replies: Seq<ReplyView>)
    ensures
        run::inspecting_flow(work, replies) matches Flow::Ask(request) ==> !decision::laws::removes(
            request,
        ) && !decision::laws::closes(request) && (request matches RequestView::Emit(event)
            ==> event is Repository),
{
    decision::laws::lemma_words();
    let repository = run::current_repository(work);
    let timeout = work.config.fetch_timeout_seconds;
    if replies.len() >= 2 {
        if let Ok(worktrees) = inspection::listed(command::command_result(replies[1])) {
            lemma_classify_all_looks(
                repository.path,
                timeout,
                worktrees,
                0,
                Seq::empty(),
                None,
                replies,
                2,
            );
        }
    }
}

proof fn lemma_emit_all_harmless(
    work: WorkView,
    decisions: Seq<StaleDecisionView>,
    i: int,
    replies: Seq<ReplyView>,
    at: int,
)
    requires
        0 <= i,
    ensures
        run::emit_all_flow(work, decisions, i, replies, at) matches Flow::Ask(request) ==> request
            matches RequestView::Emit(event) && event is Worktree && (
        decision::laws::none_removed(decisions) ==> !reports_removal(request)),
    decreases decisions.len() - i,
{
    if i < decisions.len() {
        if let Flow::Done(Ok(()), next) = run::emit_flow(
            run::decision_event(work, decisions[i].path, decisions[i].decision),
            replies,
            at,
        ) {
            lemma_emit_all_harmless(work, decisions, i + 1, replies, next);
        }
    }
}

/// A run keeps the order with which it started, whatever the replies are.
pub proof fn law_runs_keep_their_order(run: RunView, reply: ReplyView)
    ensures
        run::run_advance(run, reply).cli == run.cli,
        run::run_advance(run, reply).paths == run.paths,
        run::run_advance(run, reply).home == run.home,
{
}

/// A scan, and a prune without `--yes`, change nothing: at no point do they ask for the removal
/// of a worktree or for the closing of a workspace, and no record of theirs says that a worktree
/// was removed.
pub proof fn law_dry_runs_change_nothing(run: RunView)
    requires
        !run::applies(run.cli),
    ensures
        run::run_request(run) matches Some(request) ==> !decision::laws::removes(request)
            && !decision::laws::closes(request) && !reports_removal(request),
{
    decision::laws::lemma_words();
    match run.phase {
        PhaseView::Discovering(work) => discovery::laws::law_searches_only_look(work.search),
        PhaseView::Inspecting(work) => lemma_inspecting_harmless(work, run.replies),
        PhaseView::Deciding(work) => decision::laws::law_dry_decisions_change_nothing(
            run::current_repository(work).path,
            work.inspection.worktrees[work.worktree as int],
            work.config.check_processes,
            work.config.fetch_timeout_seconds,
            run.replies,
            0,
        ),
        PhaseView::Reconciling(work) => {
            let repository = run::current_repository(work);
            let paths = run::inventory_paths(work.inspection.worktrees);
            let timeout = work.config.fetch_timeout_seconds;
            decision::laws::law_reconciling_removes_no_worktree(
                repository.git_common_directory,
                paths,
                timeout,
                false,
                run.replies,
                0,
            );
            if let Flow::Done(result, next) = decision::reconcile_flow(
                repository.git_common_directory,
                paths,
                timeout,
                false,
                run.replies,
                0,
            ) {
                lemma_emit_all_harmless(work, result.decisions, 0, run.replies, next);
            }
        },
        _ => {},
    }
}

/// A run asks for the removal of a worktree only while it decides on that worktree, only where
/// removals are applied, and only once the integration of the worktree was proved and the replies
/// that came last were a quiet look at Herdr and a full recheck of the worktree that succeeded.
pub proof fn law_runs_remove_only_after_all_gates(run: RunView, request: RequestView)
    requires
        run::run_request(run) == Some(request),
        decision::laws::removes(request),
    ensures
        run::applies(run.cli),
        run.phase matches PhaseView::Deciding(work) && {
            let worktree = work.inspection.worktrees[work.worktree as int];
            let timeout = work.config.fetch_timeout_seconds;
            &&& integration::integrated(worktree.classification)
            &&& request == RequestView::Run(
                cleanup::remove_command(run::current_repository(work).path, worktree.path, timeout),
            )
            &&& exists|from: int, to: int|
                0 <= from && to >= run.replies.len() && #[trigger] decision::laws::passes_gates(
                    run::current_repository(work).path,
                    worktree,
                    work.config.check_processes,
                    timeout,
                    run.replies,
                    from,
                    to,
                )
        },
{
    decision::laws::lemma_words();
    match run.phase {
        PhaseView::Discovering(work) => discovery::laws::law_searches_only_look(work.search),
        PhaseView::Inspecting(work) => lemma_inspecting_harmless(work, run.replies),
        PhaseView::Deciding(work) => {
            decision::laws::law_removal_only_after_all_gates(
                run::current_repository(work).path,
                work.inspection.worktrees[work.worktree as int],
                work.config.check_processes,
                work.config.fetch_timeout_seconds,
                run::applies(run.cli),
                run.replies,
                0,
                request,
            );
        },
        PhaseView::Reconciling(work) => {
            let repository = run::current_repository(work);
            let paths = run::inventory_paths(work.inspection.worktrees);
            let timeout = work.config.fetch_timeout_seconds;
            decision::laws::law_reconciling_removes_no_worktree(
                repository.git_common_directory,
                paths,
                timeout,
                run::applies(run.cli),
                run.replies,
                0,
            );
            if let Flow::Done(result, next) = decision::reconcile_flow(
                repository.git_common_directory,
                paths,
                timeout,
                run::applies(run.cli),
                run.replies,
                0,
            ) {
                lemma_emit_all_harmless(work, result.decisions, 0, run.replies, next);
            }
        },
        _ => {},
    }
}

proof fn lemma_pieces_ask(
    cli: Cli,
    paths: AppPathsView,
    home: Option<Seq<u8>>,
    work: WorkView,
    apply: bool,
)
    ensures
        run::start_flow(cli, paths, home, Seq::empty()) is Ask,
        run::inspecting_flow(work, Seq::empty()) is Ask,
        run::deciding_flow(work, apply, Seq::empty()) is Ask,
        run::reconciling_flow(work, apply, Seq::empty()) is Ask,
        run::summarizing_flow(work.summary, Seq::empty()) is Ask,
{
}

/// Whether a phase, once it was entered, asks for something or is the last.
spec fn goes_on(run: RunView, phase: PhaseView) -> bool {
    run::run_request(RunView { phase, replies: Seq::empty(), ..run }) is Some <==> !(phase is Finished)
}

proof fn lemma_entered(run: RunView, work: WorkView)
    ensures
        goes_on(run, run::enter_issue(work)),
        goes_on(run, run::enter_repository(work)),
        work.repository < work.discovery.repositories.len() ==> goes_on(
            run,
            run::enter_worktree(work),
        ),
        goes_on(run, PhaseView::Summarizing(work)),
{
    lemma_pieces_ask(run.cli, run.paths, run.home, work, run::applies(run.cli));
    lemma_pieces_ask(
        run.cli,
        run.paths,
        run.home,
        WorkView { current: Map::empty(), worktree: 0, ..work },
        run::applies(run.cli),
    );
}

proof fn lemma_search_entered(run: RunView, work: WorkView)
    ensures
        goes_on(run, run::enter_search(work)),
{
    let found = discovery::search_result(work.search);
    lemma_entered(
        run,
        WorkView {
            search: discovery::new_search(Seq::empty(), 0),
            discovery: found,
            summary: Summary {
                repositories_scanned: output::raised(0, found.repositories.len()),
                operational_failures: output::raised(0, found.issues.len()),
                ..work.summary
            },
            repository: 0,
            ..work
        },
    );
}

proof fn lemma_start_goes_on(run: RunView, replies: Seq<ReplyView>)
    ensures
        run::after_start(run::start_flow(run.cli, run.paths, run.home, replies)) matches Some(phase)
            ==> goes_on(run, phase),
{
    if let Flow::Done(Ok((config, state, command, apply)), _) = run::start_flow(
        run.cli,
        run.paths,
        run.home,
        replies,
    ) {
        lemma_search_entered(run, run::first_work(config, state, command, apply));
    }
}

proof fn lemma_inspecting_goes_on(run: RunView, work: WorkView, replies: Seq<ReplyView>)
    requires
        work.repository < work.discovery.repositories.len(),
    ensures
        run::after_inspecting(work, replies) matches Some(phase) ==> goes_on(run, phase),
{
    if let Flow::Done(Ok(inspection), _) = run::inspecting_flow(work, replies) {
        lemma_entered(run, run::after_inspection(work, inspection));
    }
}

proof fn lemma_deciding_goes_on(run: RunView, work: WorkView, replies: Seq<ReplyView>)
    requires
        work.repository < work.discovery.repositories.len(),
        work.worktree < work.inspection.worktrees.len(),
    ensures
        run::after_deciding(work, run::applies(run.cli), replies) matches Some(phase) ==> goes_on(
            run,
            phase,
        ),
{
    if let Flow::Done(Ok(decision), _) = run::deciding_flow(work, run::applies(run.cli), replies) {
        lemma_entered(run, run::after_decision(work, decision));
    }
}

proof fn lemma_reconciling_goes_on(run: RunView, work: WorkView, replies: Seq<ReplyView>)
    requires
        work.repository < work.discovery.repositories.len(),
    ensures
        run::after_reconciling(work, run::applies(run.cli), replies) matches Some(phase)
            ==> goes_on(run, phase),
{
    if let Flow::Done(Ok(result), _) = run::reconciling_flow(work, run::applies(run.cli), replies) {
        lemma_entered(run, run::after_reconciliation(work, result));
    }
}

proof fn lemma_next_goes_on(run: RunView, replies: Seq<ReplyView>)
    requires
        run::run_request(run) is Some,
    ensures
        run::next_phase(run, replies) matches Some(phase) ==> goes_on(run, phase),
{
    match run.phase {
        PhaseView::Starting => lemma_start_goes_on(run, replies),
        PhaseView::Discovering(work) => lemma_search_entered(
            run,
            WorkView { search: discovery::search_advance(work.search, replies.last()), ..work },
        ),
        PhaseView::Inspecting(work) => lemma_inspecting_goes_on(run, work, replies),
        PhaseView::Deciding(work) => lemma_deciding_goes_on(run, work, replies),
        PhaseView::Reconciling(work) => lemma_reconciling_goes_on(run, work, replies),
        PhaseView::Reporting(work) => lemma_entered(
            run,
            WorkView { issue: (work.issue + 1) as usize, ..work },
        ),
        PhaseView::Saving(work) => lemma_entered(run, work),
        PhaseView::Summarizing(_) => {},
        PhaseView::Finished(_) => {},
    }
}

/// A run does not stall: it asks for something when it starts, and after each reply it either
/// asks for something or is over.
pub proof fn law_runs_do_not_stall(
    cli: Cli,
    paths: AppPathsView,
    home: Option<Seq<u8>>,
    run: RunView,
    reply: ReplyView,
)
    requires
        run::run_request(run) is Some,
    ensures
        run::run_request(run::new_run(cli, paths, home)) is Some,
        run::run_request(run::run_advance(run, reply)) is Some <==> !(run::run_advance(run, reply).phase
            is Finished),
{
    let replies = run.replies.push(reply);
    lemma_next_goes_on(run, replies);
    match run::next_phase(run, replies) {
        Some(_) => {},
        None => {
            assert(run::run_advance(run, reply) == (RunView { replies, ..run }));
        },
    }
    assert(run::start_flow(cli, paths, home, Seq::empty()) is Ask);
}

/// Once a run has started, nothing that goes wrong with a repository, a worktree or Herdr ends
/// it: only output that cannot be written and a state that cannot be saved do.
pub proof fn law_failures_stay_with_their_repository(run: RunView, reply: ReplyView)
    requires
        !(run.phase is Starting),
        !(run.phase is Finished),
        run::run_advance(run, reply).phase matches PhaseView::Finished(Err(_)),
    ensures
        run::run_advance(run, reply).phase matches PhaseView::Finished(Err(error)) && (error is Output
            || error is State),
{
}

/// A decision is reported as changed exactly when none was remembered for its path, or one with
/// another outcome or another reason.
pub proof fn law_changed_means_new_or_different(
    previous: Map<Seq<char>, ClassificationStateView>,
    path: Seq<u8>,
    decision: WorktreeDecisionView,
    last: WorktreeDecisionView,
)
    ensures
        !previous.contains_key(text::lossy_text(path)) ==> run::classification_changed(
            previous,
            path,
            decision,
        ),
        previous.contains_key(text::lossy_text(path)) && previous[text::lossy_text(path)]
            == run::remembered(last) ==> (run::classification_changed(previous, path, decision) <==> (
        last.outcome != decision.outcome || last.reason_code != decision.reason_code)),
{
    output::law_outcome_names_are_distinct(last.outcome, decision.outcome);
    output::law_reason_names_are_distinct(last.reason_code, decision.reason_code);
}

/// A decision that is repeated in the next run is reported as unchanged: once a repository was
/// worked on, the last decision on a path is what is remembered of it.
pub proof fn law_repeated_decisions_are_unchanged(
    state: StateView,
    common: Seq<u8>,
    current: Map<Seq<char>, ClassificationStateView>,
    path: Seq<u8>,
    decision: WorktreeDecisionView,
)
    ensures
        !run::classification_changed(
            run::previous_classifications(
                run::remember_repository(
                    state,
                    common,
                    run::record_classification(current, path, decision),
                ),
                common,
            ),
            path,
            decision,
        ),
{
}

/// What is remembered of one repository changes nothing in what is remembered of another.
pub proof fn law_memories_are_separate(
    state: StateView,
    common: Seq<u8>,
    other: Seq<u8>,
    current: Map<Seq<char>, ClassificationStateView>,
)
    requires
        text::lossy_text(common) != text::lossy_text(other),
    ensures
        run::previous_classifications(run::remember_repository(state, common, current), other)
            == run::previous_classifications(state, other),
{
}

/// What is remembered is never an inventory: the search starts from the configuration alone.
pub proof fn law_state_is_no_inventory(
    config: ConfigView,
    state: StateView,
    other: StateView,
    command: CommandName,
    apply: bool,
)
    ensures
        run::first_work(config, state, command, apply).search == run::first_work(
            config,
            other,
            command,
            apply,
        ).search,
        run::first_work(config, state, command, apply).search == discovery::new_search(
            config.roots,
            config.scan_depth,
        ),
{
}

/// The version of the layout that a record carries.
pub open spec fn record_version(event: EventView) -> u32 {
    match event {
        EventView::RunStarted { schema_version, .. } => schema_version,
        EventView::Repository { schema_version, .. } => schema_version,
        EventView::DiscoveryFailure { schema_version, .. } => schema_version,
        EventView::Worktree { schema_version, .. } => schema_version,
        EventView::Summary { summary } => summary.schema_version,
    }
}

/// Whether totals are those of a run with the given order.
pub open spec fn summary_of(cli: Cli, summary: Summary) -> bool {
    summary.schema_version == OUTPUT_SCHEMA_VERSION && run::run_command(cli.command) == Some(
        (summary.command, summary.apply),
    )
}

/// Whether the totals that a run keeps are its own.
pub open spec fn summary_kept(cli: Cli, phase: PhaseView) -> bool {
    match phase {
        PhaseView::Starting => true,
        PhaseView::Discovering(work) => summary_of(cli, work.summary),
        PhaseView::Inspecting(work) => summary_of(cli, work.summary),
        PhaseView::Deciding(work) => summary_of(cli, work.summary),
        PhaseView::Reconciling(work) => summary_of(cli, work.summary),
        PhaseView::Reporting(work) => summary_of(cli, work.summary),
        PhaseView::Saving(work) => summary_of(cli, work.summary),
        PhaseView::Summarizing(work) => summary_of(cli, work.summary),
        PhaseView::Finished(Ok(summary)) => summary_of(cli, summary),
        PhaseView::Finished(Err(_)) => true,
    }
}

proof fn lemma_count_stale(cli: Cli, summary: Summary, decisions: Seq<StaleDecisionView>)
    requires
        summary_of(cli, summary),
    ensures
        summary_of(cli, run::count_stale(summary, decisions)),
    decreases decisions.len(),
{
    if decisions.len() > 0 {
        lemma_count_stale(cli, summary, decisions.drop_last());
    }
}

proof fn lemma_kept_entered(cli: Cli, work: WorkView)
    requires
        summary_of(cli, work.summary),
    ensures
        summary_kept(cli, run::enter_issue(work)),
        summary_kept(cli, run::enter_repository(work)),
        summary_kept(cli, run::enter_worktree(work)),
        summary_kept(cli, run::enter_search(work)),
{
}

proof fn lemma_kept_start(
    cli: Cli,
    paths: AppPathsView,
    home: Option<Seq<u8>>,
    replies: Seq<ReplyView>,
)
    ensures
        run::after_start(run::start_flow(cli, paths, home, replies)) matches Some(phase)
            ==> summary_kept(cli, phase),
{
    if let Flow::Done(Ok((config, state, command, apply)), _) = run::start_flow(
        cli,
        paths,
        home,
        replies,
    ) {
        lemma_kept_entered(cli, run::first_work(config, state, command, apply));
    }
}

proof fn lemma_kept_inspecting(cli: Cli, work: WorkView, replies: Seq<ReplyView>)
    requires
        summary_of(cli, work.summary),
    ensures
        run::after_inspecting(work, replies) matches Some(phase) ==> summary_kept(cli, phase),
{
    if let Flow::Done(Ok(inspection), _) = run::inspecting_flow(work, replies) {
        lemma_kept_entered(cli, run::after_inspection(work, inspection));
    }
}

proof fn lemma_kept_deciding(cli: Cli, work: WorkView, replies: Seq<ReplyView>)
    requires
        summary_of(cli, work.summary),
    ensures
        run::after_deciding(work, run::applies(cli), replies) matches Some(phase) ==> summary_kept(
            cli,
            phase,
        ),
{
    if let Flow::Done(Ok(decision), _) = run::deciding_flow(work, run::applies(cli), replies) {
        lemma_kept_entered(cli, run::after_decision(work, decision));
    }
}

proof fn lemma_kept_reconciling(cli: Cli, work: WorkView, replies: Seq<ReplyView>)
    requires
        summary_of(cli, work.summary),
    ensures
        run::after_reconciling(work, run::applies(cli), replies) matches Some(phase)
            ==> summary_kept(cli, phase),
{
    if let Flow::Done(Ok(result), _) = run::reconciling_flow(work, run::applies(cli), replies) {
        let summary = if result.failed {
            work.summary.with_failure()
        } else {
            work.summary
        };
        lemma_count_stale(
            cli,
            Summary {
                worktrees_inspected: output::raised(
                    summary.worktrees_inspected,
                    result.decisions.len(),
                ),
                ..summary
            },
            result.decisions,
        );
        lemma_kept_entered(cli, run::after_reconciliation(work, result));
    }
}

/// The totals that a run keeps, reports and returns tell its own command, whether removals are
/// applied, and the version of the layout.
pub proof fn law_summaries_tell_their_run(run: RunView, reply: ReplyView)
    requires
        summary_kept(run.cli, run.phase),
    ensures
        summary_kept(run.cli, run::run_advance(run, reply).phase),
{
    let replies = run.replies.push(reply);
    match run.phase {
        PhaseView::Starting => lemma_kept_start(run.cli, run.paths, run.home, replies),
        PhaseView::Discovering(work) => lemma_kept_entered(
            run.cli,
            WorkView { search: discovery::search_advance(work.search, replies.last()), ..work },
        ),
        PhaseView::Inspecting(work) => lemma_kept_inspecting(run.cli, work, replies),
        PhaseView::Deciding(work) => lemma_kept_deciding(run.cli, work, replies),
        PhaseView::Reconciling(work) => lemma_kept_reconciling(run.cli, work, replies),
        PhaseView::Reporting(work) => lemma_kept_entered(
            run.cli,
            WorkView { issue: (work.issue + 1) as usize, ..work },
        ),
        _ => {},
    }
}

/// Whether the totals that a run keeps count no removal.
pub open spec fn nothing_removed(phase: PhaseView) -> bool {
    match phase {
        PhaseView::Starting => true,
        PhaseView::Discovering(work) => work.summary.removals == 0,
        PhaseView::Inspecting(work) => work.summary.removals == 0,
        PhaseView::Deciding(work) => work.summary.removals == 0,
        PhaseView::Reconciling(work) => work.summary.removals == 0,
        PhaseView::Reporting(work) => work.summary.removals == 0,
        PhaseView::Saving(work) => work.summary.removals == 0,
        PhaseView::Summarizing(work) => work.summary.removals == 0,
        PhaseView::Finished(Ok(summary)) => summary.removals == 0,
        PhaseView::Finished(Err(_)) => true,
    }
}

proof fn lemma_no_removal_counted(summary: Summary, decisions: Seq<StaleDecisionView>)
    requires
        summary.removals == 0,
        decision::laws::none_removed(decisions),
    ensures
        run::count_stale(summary, decisions).removals == 0,
    decreases decisions.len(),
{
    if decisions.len() > 0 {
        assert(!(decisions[decisions.len() - 1].decision.outcome is Removed));
        lemma_no_removal_counted(summary, decisions.drop_last());
    }
}

proof fn lemma_no_removal_entered(work: WorkView)
    requires
        work.summary.removals == 0,
    ensures
        nothing_removed(run::enter_issue(work)),
        nothing_removed(run::enter_repository(work)),
        nothing_removed(run::enter_worktree(work)),
        nothing_removed(run::enter_search(work)),
{
}

proof fn lemma_no_removal_deciding(work: WorkView, replies: Seq<ReplyView>)
    requires
        work.summary.removals == 0,
    ensures
        run::after_deciding(work, false, replies) matches Some(phase) ==> nothing_removed(phase),
{
    decision::laws::law_dry_decisions_change_nothing(
        run::current_repository(work).path,
        work.inspection.worktrees[work.worktree as int],
        work.config.check_processes,
        work.config.fetch_timeout_seconds,
        replies,
        0,
    );
    if let Flow::Done(Ok(decision), _) = run::deciding_flow(work, false, replies) {
        lemma_no_removal_entered(run::after_decision(work, decision));
    }
}

proof fn lemma_no_removal_reconciling(work: WorkView, replies: Seq<ReplyView>)
    requires
        work.summary.removals == 0,
    ensures
        run::after_reconciling(work, false, replies) matches Some(phase) ==> nothing_removed(phase),
{
    decision::laws::law_reconciling_removes_no_worktree(
        run::current_repository(work).git_common_directory,
        run::inventory_paths(work.inspection.worktrees),
        work.config.fetch_timeout_seconds,
        false,
        replies,
        0,
    );
    if let Flow::Done(Ok(result), _) = run::reconciling_flow(work, false, replies) {
        let summary = if result.failed {
            work.summary.with_failure()
        } else {
            work.summary
        };
        lemma_no_removal_counted(
            Summary {
                worktrees_inspected: output::raised(
                    summary.worktrees_inspected,
                    result.decisions.len(),
                ),
                ..summary
            },
            result.decisions,
        );
        lemma_no_removal_entered(run::after_reconciliation(work, result));
    }
}

/// The totals that a request reports, if it does.
pub open spec fn reported_totals(request: RequestView) -> Option<Summary> {
    match request {
        RequestView::Emit(EventView::Summary { summary }) => Some(summary),
        _ => None,
    }
}

proof fn lemma_dry_pieces_report_no_totals(work: WorkView, replies: Seq<ReplyView>)
    ensures
        run::inspecting_flow(work, replies) matches Flow::Ask(request) ==> reported_totals(request)
            is None,
        run::deciding_flow(work, false, replies) matches Flow::Ask(request) ==> reported_totals(
            request,
        ) is None,
        run::reconciling_flow(work, false, replies) matches Flow::Ask(request) ==> reported_totals(
            request,
        ) is None,
{
    lemma_inspecting_harmless(work, replies);
    let repository = run::current_repository(work);
    let timeout = work.config.fetch_timeout_seconds;
    decision::laws::law_dry_decisions_change_nothing(
        repository.path,
        work.inspection.worktrees[work.worktree as int],
        work.config.check_processes,
        timeout,
        replies,
        0,
    );
    let paths = run::inventory_paths(work.inspection.worktrees);
    decision::laws::law_reconciling_removes_no_worktree(
        repository.git_common_directory,
        paths,
        timeout,
        false,
        replies,
        0,
    );
    if let Flow::Done(result, next) = decision::reconcile_flow(
        repository.git_common_directory,
        paths,
        timeout,
        false,
        replies,
        0,
    ) {
        lemma_emit_all_harmless(work, result.decisions, 0, replies, next);
    }
}

proof fn lemma_reported_totals(run: RunView)
    requires
        !run::applies(run.cli),
        nothing_removed(run.phase),
    ensures
        run::run_request(run) matches Some(request) ==> (reported_totals(request) matches Some(
            summary,
        ) ==> summary.removals == 0),
{
    match run.phase {
        PhaseView::Discovering(work) => discovery::laws::law_searches_only_look(work.search),
        PhaseView::Inspecting(work) => lemma_dry_pieces_report_no_totals(work, run.replies),
        PhaseView::Deciding(work) => lemma_dry_pieces_report_no_totals(work, run.replies),
        PhaseView::Reconciling(work) => lemma_dry_pieces_report_no_totals(work, run.replies),
        _ => {},
    }
}

/// While removals are not applied, the totals count none: they start without one, no reply adds
/// one, in whatever phase it comes, and none is reported.
pub proof fn law_dry_runs_count_no_removal(
    cli: Cli,
    paths: AppPathsView,
    home: Option<Seq<u8>>,
    run: RunView,
    reply: ReplyView,
)
    requires
        !run::applies(run.cli),
        nothing_removed(run.phase),
    ensures
        nothing_removed(run::new_run(cli, paths, home).phase),
        nothing_removed(run::run_advance(run, reply).phase),
        run::run_request(run) matches Some(request) ==> (reported_totals(request) matches Some(
            summary,
        ) ==> summary.removals == 0),
{
    lemma_reported_totals(run);
    let replies = run.replies.push(reply);
    match run.phase {
        PhaseView::Starting => {
            if let Flow::Done(Ok((config, state, command, apply)), _) = run::start_flow(
                run.cli,
                run.paths,
                run.home,
                replies,
            ) {
                lemma_no_removal_entered(run::first_work(config, state, command, apply));
            }
        },
        PhaseView::Discovering(work) => lemma_no_removal_entered(
            WorkView { search: discovery::search_advance(work.search, replies.last()), ..work },
        ),
        PhaseView::Inspecting(work) => {
            if let Flow::Done(Ok(inspection), _) = run::inspecting_flow(work, replies) {
                lemma_no_removal_entered(run::after_inspection(work, inspection));
            }
        },
        PhaseView::Deciding(work) => lemma_no_removal_deciding(work, replies),
        PhaseView::Reconciling(work) => lemma_no_removal_reconciling(work, replies),
        PhaseView::Reporting(work) => lemma_no_removal_entered(
            WorkView { issue: (work.issue + 1) as usize, ..work },
        ),
        _ => {},
    }
}

/// Every record of a run carries the version of the layout.
pub proof fn law_records_carry_their_version(
    cli: Cli,
    work: WorkView,
    command: CommandName,
    apply: bool,
    path: Seq<u8>,
    decision: WorktreeDecisionView,
    issue: DiscoveryIssueView,
)
    requires
        summary_of(cli, work.summary),
    ensures
        record_version(run::started_event(command, apply)) == OUTPUT_SCHEMA_VERSION,
        record_version(run::repository_event(run::current_repository(work), work.inspection))
            == OUTPUT_SCHEMA_VERSION,
        record_version(run::decision_event(work, path, decision)) == OUTPUT_SCHEMA_VERSION,
        record_version(run::issue_event(issue)) == OUTPUT_SCHEMA_VERSION,
        record_version(EventView::Summary { summary: work.summary }) == OUTPUT_SCHEMA_VERSION,
{
}

/// A run takes the lock before anything else, and goes no further without it.
pub proof fn law_the_lock_comes_first(
    cli: Cli,
    paths: AppPathsView,
    home: Option<Seq<u8>>,
    reply: ReplyView,
)
    ensures
        run::run_request(run::new_run(cli, paths, home)) == Some(
            RequestView::AcquireLock {
                directory: lock::directory_of(paths.lock_file),
                path: paths.lock_file,
            },
        ),
        lock::lock_failure(reply) matches Some(failure) ==> run::run_advance(
            run::new_run(cli, paths, home),
            reply,
        ).phase == PhaseView::Finished(
            Err(ErrorView::Lock(lock::lock_error(paths.lock_file, failure))),
        ),
{
}

} // verus!
