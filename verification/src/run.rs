//! A run: discovery, inspection, decisions and records, from the lock to the summary.
pub mod laws;
pub mod model;

use crate::cli::{Cli, Command};
use crate::command;
use crate::command::{Reply, ReplyView, Request, RequestView};
use crate::config;
use crate::config::{Config, ConfigError, ConfigErrorView, ConfigView};
use crate::decision;
use crate::decision::{Reconciliation, ReconciliationView, StaleDecision, StaleDecisionView};
use crate::decision::{WorktreeDecision, WorktreeDecisionView};
use crate::discovery;
use crate::discovery::RepositoryView;
use crate::discovery::{Discoverer, DiscovererView, Discovery, DiscoveryIssueView, DiscoveryView};
use crate::filepath;
use crate::filepath::FilePath;
use crate::flow;
use crate::flow::{Flow, Step};
use crate::inspection;
use crate::inspection::{RepositoryInspection, RepositoryInspectionOutcome};
use crate::inspection::{RepositoryInspectionView, WorktreeInspection, WorktreeInspectionView};
use crate::integration;
use crate::lock;
use crate::lock::{LockError, LockErrorView, RunLock};
use crate::output;
use crate::output::{CommandName, Event, EventView, OUTPUT_SCHEMA_VERSION, Summary, TOOL_VERSION};
use crate::paths;
use crate::paths::{AppPaths, AppPathsView, Environment, PathError, PathErrorView};
use crate::state;
use crate::state::{ClassificationState, ClassificationStateView, RepositoryState};
use crate::state::{RepositoryStateView, State, StateError, StateErrorView, StateView};
use crate::text;
use crate::textmap::TextMap;
use vstd::prelude::*;

verus! {

/// Why a run could not be completed.
#[derive(Debug, PartialEq, Eq)]
pub enum Error {
    Paths(PathError),
    Config(ConfigError),
    Lock(LockError),
    State(StateError),
    Output(String),
    ScheduleCommand,
}

/// The content of a [`Error`].
pub enum ErrorView {
    Paths(PathErrorView),
    Config(ConfigErrorView),
    Lock(LockErrorView),
    State(StateErrorView),
    Output(Seq<char>),
    ScheduleCommand,
}

impl DeepView for Error {
    type V = ErrorView;

    open spec fn deep_view(&self) -> ErrorView {
        match self {
            Error::Paths(value) => ErrorView::Paths(value.deep_view()),
            Error::Config(value) => ErrorView::Config(value.deep_view()),
            Error::Lock(value) => ErrorView::Lock(value.deep_view()),
            Error::State(value) => ErrorView::State(value.deep_view()),
            Error::Output(value) => ErrorView::Output(value@),
            Error::ScheduleCommand => ErrorView::ScheduleCommand,
        }
    }
}

/// The message of an error.
pub open spec fn error_message(error: ErrorView) -> Seq<char> {
    match error {
        ErrorView::Paths(error) => paths::path_message(error),
        ErrorView::Config(error) => config::config_message(error),
        ErrorView::Lock(error) => lock::lock_message(error),
        ErrorView::State(error) => state::state_message(error),
        ErrorView::Output(error) => "failed to write structured output: "@ + error,
        ErrorView::ScheduleCommand => {
            "schedule commands must be run through the scheduling interface"@
        },
    }
}

impl Error {
    /// The message of the error.
    pub fn message(&self) -> (message: String)
        ensures
            message@ == error_message(self.deep_view()),
    {
        match self {
            Error::Paths(error) => error.message(),
            Error::Config(error) => error.message(),
            Error::Lock(error) => error.message(),
            Error::State(error) => error.message(),
            Error::Output(error) => text::concat2(
                "failed to write structured output: ",
                error.as_str(),
            ),
            Error::ScheduleCommand => {
                "schedule commands must be run through the scheduling interface".to_owned()
            },
        }
    }
}

/// Why output was not written, as a reply tells it; nothing where it was.
pub open spec fn write_error(reply: ReplyView) -> Option<Seq<char>> {
    match reply {
        ReplyView::Written(Ok(_)) => None,
        ReplyView::Written(Err(error)) => Some(error),
        _ => Some(command::UNEXPECTED_REPLY@),
    }
}

/// The writing of one record.
pub open spec fn emit_flow(event: EventView, replies: Seq<ReplyView>, at: int) -> Flow<
    Result<(), Seq<char>>,
> {
    if at >= replies.len() {
        Flow::Ask(RequestView::Emit(event))
    } else {
        match write_error(replies[at]) {
            None => Flow::Done(Ok(()), at + 1),
            Some(error) => Flow::Done(Err(error), at + 1),
        }
    }
}

fn read_written(reply: &Reply) -> (error: Option<String>)
    ensures
        error.deep_view() == write_error(reply.deep_view()),
{
    match reply {
        Reply::Written(Ok(_)) => None,
        Reply::Written(Err(error)) => Some(error.clone()),
        _ => Some(command::UNEXPECTED_REPLY.to_owned()),
    }
}

fn write_event(event: Event, replies: &Vec<Reply>, at: usize) -> (step: Step<Result<(), String>>)
    ensures
        flow::step_view(step) == emit_flow(event.deep_view(), replies.deep_view(), at as int),
        step matches Step::Done(_, next) ==> next == at + 1 <= replies.len(),
{
    if at >= replies.len() {
        return Step::Ask(Request::Emit(event));
    }
    assert(replies.deep_view()[at as int] == replies[at as int].deep_view());
    match read_written(&replies[at]) {
        None => Step::Done(Ok(()), at + 1),
        Some(error) => Step::Done(Err(error), at + 1),
    }
}

/// The command that is run, and whether removals are applied; nothing for a scheduling command.
pub open spec fn run_command(command: Command) -> Option<(CommandName, bool)> {
    match command {
        Command::Scan => Some((CommandName::Scan, false)),
        Command::Prune { yes } => Some((CommandName::Prune, yes)),
        Command::Schedule { .. } => None,
    }
}

fn read_command(command: Command) -> (result: Option<(CommandName, bool)>)
    ensures
        result == run_command(command),
{
    match command {
        Command::Scan => Some((CommandName::Scan, false)),
        Command::Prune { yes } => Some((CommandName::Prune, yes)),
        Command::Schedule { command: _ } => None,
    }
}

/// Whether removals are applied.
pub open spec fn applies(cli: Cli) -> bool {
    cli.command == (Command::Prune { yes: true })
}

/// What a run works on.
#[derive(Debug, PartialEq, Eq)]
pub struct Work {
    pub config: Config,
    pub state: State,
    pub summary: Summary,
    pub search: Discoverer,
    pub discovery: Discovery,
    /// The number of the repository that is worked on.
    pub repository: usize,
    /// Its inspection.
    pub inspection: RepositoryInspection,
    /// The number of its worktree that is worked on.
    pub worktree: usize,
    /// The classifications of its worktrees that were reported so far.
    pub current: TextMap<ClassificationState>,
    /// The number of the problem that is reported.
    pub issue: usize,
}

/// The content of a [`Work`].
pub struct WorkView {
    pub config: ConfigView,
    pub state: StateView,
    pub summary: Summary,
    pub search: DiscovererView,
    pub discovery: DiscoveryView,
    pub repository: usize,
    pub inspection: RepositoryInspectionView,
    pub worktree: usize,
    pub current: Map<Seq<char>, ClassificationStateView>,
    pub issue: usize,
}

impl DeepView for Work {
    type V = WorkView;

    open spec fn deep_view(&self) -> WorkView {
        WorkView {
            config: self.config.deep_view(),
            state: self.state.deep_view(),
            summary: self.summary,
            search: self.search.deep_view(),
            discovery: self.discovery.deep_view(),
            repository: self.repository,
            inspection: self.inspection.deep_view(),
            worktree: self.worktree,
            current: self.current.deep_view(),
            issue: self.issue,
        }
    }
}

/// Where a run stands.
#[derive(Debug, PartialEq, Eq)]
pub enum Phase {
    /// It takes the lock, reads configuration and state, and reports that it started.
    Starting,
    /// It looks for repositories.
    Discovering(Work),
    /// It inspects a repository, and reports on it.
    Inspecting(Work),
    /// It decides on a worktree, and reports the decision.
    Deciding(Work),
    /// It reconciles a repository with Herdr, and reports the decisions.
    Reconciling(Work),
    /// It reports a problem of the search.
    Reporting(Work),
    /// It saves the state.
    Saving(Work),
    /// It reports the totals.
    Summarizing(Work),
    /// It is over.
    Finished(Result<Summary, Error>),
}

/// The content of a [`Phase`].
pub enum PhaseView {
    Starting,
    Discovering(WorkView),
    Inspecting(WorkView),
    Deciding(WorkView),
    Reconciling(WorkView),
    Reporting(WorkView),
    Saving(WorkView),
    Summarizing(WorkView),
    Finished(Result<Summary, ErrorView>),
}

impl DeepView for Phase {
    type V = PhaseView;

    open spec fn deep_view(&self) -> PhaseView {
        match self {
            Phase::Starting => PhaseView::Starting,
            Phase::Discovering(value) => PhaseView::Discovering(value.deep_view()),
            Phase::Inspecting(value) => PhaseView::Inspecting(value.deep_view()),
            Phase::Deciding(value) => PhaseView::Deciding(value.deep_view()),
            Phase::Reconciling(value) => PhaseView::Reconciling(value.deep_view()),
            Phase::Reporting(value) => PhaseView::Reporting(value.deep_view()),
            Phase::Saving(value) => PhaseView::Saving(value.deep_view()),
            Phase::Summarizing(value) => PhaseView::Summarizing(value.deep_view()),
            Phase::Finished(value) => PhaseView::Finished(crate::flow::result_view(*value)),
        }
    }
}

/// A run.
#[derive(Debug, PartialEq, Eq)]
pub struct Run {
    pub cli: Cli,
    pub paths: AppPaths,
    pub home: Option<FilePath>,
    pub phase: Phase,
    /// The replies that belong to the current phase.
    pub replies: Vec<Reply>,
}

/// The content of a [`Run`].
pub struct RunView {
    pub cli: Cli,
    pub paths: AppPathsView,
    pub home: Option<Seq<u8>>,
    pub phase: PhaseView,
    pub replies: Seq<ReplyView>,
}

impl DeepView for Run {
    type V = RunView;

    open spec fn deep_view(&self) -> RunView {
        RunView {
            cli: self.cli,
            paths: self.paths.deep_view(),
            home: self.home.deep_view(),
            phase: self.phase.deep_view(),
            replies: self.replies.deep_view(),
        }
    }
}

/// The record that a run started.
pub open spec fn started_event(command: CommandName, apply: bool) -> EventView {
    EventView::RunStarted {
        schema_version: OUTPUT_SCHEMA_VERSION,
        tool_version: TOOL_VERSION@,
        command,
        apply,
    }
}

/// The beginning of a run: the lock comes first, then the configuration, then the state; a
/// scheduling command is refused; then the start is reported.
pub open spec fn start_flow(
    cli: Cli,
    paths: AppPathsView,
    home: Option<Seq<u8>>,
    replies: Seq<ReplyView>,
) -> Flow<Result<(ConfigView, StateView, CommandName, bool), ErrorView>> {
    match lock::acquire_flow(paths.lock_file, replies, 0) {
        Flow::Ask(request) => Flow::Ask(request),
        Flow::Done(Err(error), next) => Flow::Done(Err(ErrorView::Lock(error)), next),
        Flow::Done(Ok(_), next) => match config::load_flow(paths.config_file, home, replies, next) {
            Flow::Ask(request) => Flow::Ask(request),
            Flow::Done(Err(error), next) => Flow::Done(Err(ErrorView::Config(error)), next),
            Flow::Done(Ok(config), next) => match state::load_flow(
                paths.state_file,
                replies,
                next,
            ) {
                Flow::Ask(request) => Flow::Ask(request),
                Flow::Done(Err(error), next) => Flow::Done(Err(ErrorView::State(error)), next),
                Flow::Done(Ok(state), next) => match run_command(cli.command) {
                    None => Flow::Done(Err(ErrorView::ScheduleCommand), next),
                    Some((command, apply)) => match emit_flow(
                        started_event(command, apply),
                        replies,
                        next,
                    ) {
                        Flow::Ask(request) => Flow::Ask(request),
                        Flow::Done(Err(error), next) => Flow::Done(
                            Err(ErrorView::Output(error)),
                            next,
                        ),
                        Flow::Done(Ok(()), next) => Flow::Done(
                            Ok((config, state, command, apply)),
                            next,
                        ),
                    },
                },
            },
        },
    }
}

/// The content of where the beginning of a run stands.
pub open spec fn start_view(
    step: Step<Result<(Config, State, CommandName, bool), Error>>,
) -> Flow<Result<(ConfigView, StateView, CommandName, bool), ErrorView>> {
    match step {
        Step::Ask(request) => Flow::Ask(request.deep_view()),
        Step::Done(Ok((config, state, command, apply)), at) => Flow::Done(
            Ok((config.deep_view(), state.deep_view(), command, apply)),
            at as int,
        ),
        Step::Done(Err(error), at) => Flow::Done(Err(error.deep_view()), at as int),
    }
}

fn start(cli: Cli, paths: &AppPaths, home: &Option<FilePath>, replies: &Vec<Reply>) -> (step: Step<
    Result<(Config, State, CommandName, bool), Error>,
>)
    ensures
        start_view(step) == start_flow(
            cli,
            paths.deep_view(),
            home.deep_view(),
            replies.deep_view(),
        ),
{
    let next = match RunLock::acquire(&paths.lock_file, replies, 0) {
        Step::Ask(request) => return Step::Ask(request),
        Step::Done(Err(error), next) => return Step::Done(Err(Error::Lock(error)), next),
        Step::Done(Ok(_), next) => next,
    };
    let (config, next) = match Config::load(&paths.config_file, home, replies, next) {
        Step::Ask(request) => return Step::Ask(request),
        Step::Done(Err(error), next) => return Step::Done(Err(Error::Config(error)), next),
        Step::Done(Ok(config), next) => (config, next),
    };
    let (state, next) = match State::load(&paths.state_file, replies, next) {
        Step::Ask(request) => return Step::Ask(request),
        Step::Done(Err(error), next) => return Step::Done(Err(Error::State(error)), next),
        Step::Done(Ok(state), next) => (state, next),
    };
    let (command, apply) = match read_command(cli.command) {
        None => return Step::Done(Err(Error::ScheduleCommand), next),
        Some((command, apply)) => (command, apply),
    };
    let event = Event::RunStarted {
        schema_version: OUTPUT_SCHEMA_VERSION,
        tool_version: TOOL_VERSION.to_owned(),
        command,
        apply,
    };
    match write_event(event, replies, next) {
        Step::Ask(request) => Step::Ask(request),
        Step::Done(Err(error), next) => Step::Done(Err(Error::Output(error)), next),
        Step::Done(Ok(()), next) => Step::Done(Ok((config, state, command, apply)), next),
    }
}

/// No inspection.
pub open spec fn no_inspection() -> RepositoryInspectionView {
    RepositoryInspectionView {
        outcome: RepositoryInspectionOutcome::Inspected,
        message: None,
        worktrees: Seq::empty(),
    }
}

/// The work of a run that has just started.
pub open spec fn first_work(
    config: ConfigView,
    state: StateView,
    command: CommandName,
    apply: bool,
) -> WorkView {
    WorkView {
        config,
        state,
        summary: output::empty_summary(command, apply),
        search: discovery::new_search(config.roots, config.scan_depth),
        discovery: DiscoveryView { repositories: Seq::empty(), issues: Seq::empty() },
        repository: 0,
        inspection: no_inspection(),
        worktree: 0,
        current: Map::empty(),
        issue: 0,
    }
}

fn new_inspection() -> (inspection: RepositoryInspection)
    ensures
        inspection.deep_view() == no_inspection(),
{
    let worktrees: Vec<WorktreeInspection> = Vec::new();
    assert(worktrees.deep_view() =~= Seq::empty());
    RepositoryInspection {
        outcome: RepositoryInspectionOutcome::Inspected,
        message: None,
        worktrees,
    }
}

fn new_work(config: Config, state: State, command: CommandName, apply: bool) -> (work: Work)
    ensures
        work.deep_view() == first_work(config.deep_view(), state.deep_view(), command, apply),
{
    let search = discovery::discover(&config.roots, config.scan_depth);
    let found = Discovery { repositories: Vec::new(), issues: Vec::new() };
    assert(found.repositories.deep_view() =~= Seq::empty());
    assert(found.issues.deep_view() =~= Seq::empty());
    Work {
        config,
        state,
        summary: Summary::empty(command, apply),
        search,
        discovery: found,
        repository: 0,
        inspection: new_inspection(),
        worktree: 0,
        current: TextMap::new(),
        issue: 0,
    }
}

/// On to the search, or behind it where there is nothing to look for.
pub open spec fn enter_search(work: WorkView) -> PhaseView {
    if discovery::search_request(work.search) is Some {
        PhaseView::Discovering(work)
    } else {
        leave_search(work)
    }
}

/// On to the first repository that the search has found.
pub open spec fn leave_search(work: WorkView) -> PhaseView {
    let found = discovery::search_result(work.search);
    enter_repository(
        WorkView {
            search: discovery::new_search(Seq::empty(), 0),
            discovery: found,
            summary: Summary {
                repositories_scanned: output::raised(0, found.repositories.len()),
                operational_failures: output::raised(0, found.issues.len()),
                ..work.summary
            },
            repository: 0,
            ..work
        },
    )
}

/// On to the repository whose turn it is, or to the problems of the search.
pub open spec fn enter_repository(work: WorkView) -> PhaseView {
    if work.repository < work.discovery.repositories.len() {
        PhaseView::Inspecting(WorkView { current: Map::empty(), worktree: 0, ..work })
    } else {
        enter_issue(WorkView { issue: 0, ..work })
    }
}

/// On to the worktree whose turn it is, or to Herdr.
pub open spec fn enter_worktree(work: WorkView) -> PhaseView {
    if work.worktree < work.inspection.worktrees.len() {
        PhaseView::Deciding(work)
    } else {
        PhaseView::Reconciling(work)
    }
}

/// On to the problem whose turn it is, or to the state.
pub open spec fn enter_issue(work: WorkView) -> PhaseView {
    if work.issue < work.discovery.issues.len() {
        PhaseView::Reporting(work)
    } else {
        PhaseView::Saving(work)
    }
}

fn go_to_search(work: Work) -> (phase: Phase)
    ensures
        phase.deep_view() == enter_search(work.deep_view()),
{
    match work.search.request() {
        Some(_) => Phase::Discovering(work),
        None => go_behind_search(work),
    }
}

fn go_behind_search(work: Work) -> (phase: Phase)
    ensures
        phase.deep_view() == leave_search(work.deep_view()),
{
    let no_roots: Vec<FilePath> = Vec::new();
    assert(no_roots.deep_view() =~= Seq::empty());
    let Work { config, state, summary, search, discovery: _, repository: _, inspection, worktree, current, issue } =
        work;
    let found = search.finish();
    let mut totals = summary;
    totals.repositories_scanned = found.repositories.len() as u64;
    totals.operational_failures = found.issues.len() as u64;
    go_to_repository(
        Work {
            config,
            state,
            summary: totals,
            search: discovery::discover(&no_roots, 0),
            discovery: found,
            repository: 0,
            inspection,
            worktree,
            current,
            issue,
        },
    )
}

fn go_to_repository(work: Work) -> (phase: Phase)
    ensures
        phase.deep_view() == enter_repository(work.deep_view()),
{
    let mut work = work;
    if work.repository < work.discovery.repositories.len() {
        work.current = TextMap::new();
        work.worktree = 0;
        Phase::Inspecting(work)
    } else {
        work.issue = 0;
        go_to_issue(work)
    }
}

fn go_to_worktree(work: Work) -> (phase: Phase)
    ensures
        phase.deep_view() == enter_worktree(work.deep_view()),
{
    if work.worktree < work.inspection.worktrees.len() {
        Phase::Deciding(work)
    } else {
        Phase::Reconciling(work)
    }
}

fn go_to_issue(work: Work) -> (phase: Phase)
    ensures
        phase.deep_view() == enter_issue(work.deep_view()),
{
    if work.issue < work.discovery.issues.len() {
        Phase::Reporting(work)
    } else {
        Phase::Saving(work)
    }
}

/// The repository that is worked on.
pub open spec fn current_repository(work: WorkView) -> RepositoryView {
    work.discovery.repositories[work.repository as int]
}

/// The record on a repository.
pub open spec fn repository_event(
    repository: RepositoryView,
    inspection: RepositoryInspectionView,
) -> EventView {
    let (outcome, reason_code) = decision::repository_report(inspection.outcome);
    EventView::Repository {
        schema_version: OUTPUT_SCHEMA_VERSION,
        path: repository.path,
        git_common_directory: Some(repository.git_common_directory),
        outcome,
        reason_code,
        message: inspection.message,
    }
}

/// The inspection of a repository, with the proofs of integration, and the record on it.
pub open spec fn inspecting_flow(work: WorkView, replies: Seq<ReplyView>) -> Flow<
    Result<RepositoryInspectionView, Seq<char>>,
> {
    let repository = current_repository(work);
    let timeout = work.config.fetch_timeout_seconds;
    match inspection::inspect_flow(repository.path, timeout, replies, 0) {
        Flow::Ask(request) => Flow::Ask(request),
        Flow::Done(inspection, next) => match integration::integrate_flow(
            repository.path,
            inspection,
            timeout,
            replies,
            next,
        ) {
            Flow::Ask(request) => Flow::Ask(request),
            Flow::Done(inspection, next) => match emit_flow(
                repository_event(repository, inspection),
                replies,
                next,
            ) {
                Flow::Ask(request) => Flow::Ask(request),
                Flow::Done(Err(error), next) => Flow::Done(Err(error), next),
                Flow::Done(Ok(()), next) => Flow::Done(Ok(inspection), next),
            },
        },
    }
}

fn inspecting(work: &Work, replies: &Vec<Reply>) -> (step: Step<
    Result<RepositoryInspection, String>,
>)
    requires
        work.repository < work.discovery.repositories.len(),
    ensures
        flow::step_view(step) == inspecting_flow(work.deep_view(), replies.deep_view()),
{
    let repository = &work.discovery.repositories[work.repository];
    assert(work.discovery.repositories.deep_view()[work.repository as int]
        == repository.deep_view());
    let timeout = work.config.fetch_timeout_seconds;
    let (first, next) = match inspection::inspect_repository(
        &repository.path,
        timeout,
        replies,
        0,
    ) {
        Step::Ask(request) => return Step::Ask(request),
        Step::Done(first, next) => (first, next),
    };
    let (full, next) = match integration::integrate(
        &repository.path,
        first,
        timeout,
        replies,
        next,
    ) {
        Step::Ask(request) => return Step::Ask(request),
        Step::Done(full, next) => (full, next),
    };
    let (outcome, reason_code) = decision::repository_result(full.outcome);
    let event = Event::Repository {
        schema_version: OUTPUT_SCHEMA_VERSION,
        path: repository.path.clone(),
        git_common_directory: Some(repository.git_common_directory.clone()),
        outcome,
        reason_code,
        message: text::clone_optional(&full.message),
    };
    match write_event(event, replies, next) {
        Step::Ask(request) => Step::Ask(request),
        Step::Done(Err(error), next) => Step::Done(Err(error), next),
        Step::Done(Ok(()), next) => Step::Done(Ok(full), next),
    }
}

/// What is remembered of a decision.
pub open spec fn remembered(decision: WorktreeDecisionView) -> ClassificationStateView {
    ClassificationStateView {
        classification: output::outcome_name(decision.outcome),
        reason_code: output::reason_name(decision.reason_code),
    }
}

/// Whether a decision differs from the last one that was remembered for the path, or none was.
pub open spec fn classification_changed(
    previous: Map<Seq<char>, ClassificationStateView>,
    path: Seq<u8>,
    decision: WorktreeDecisionView,
) -> bool {
    !(previous.contains_key(text::lossy_text(path)) && previous[text::lossy_text(path)]
        == remembered(decision))
}

/// The classifications with that of a decision.
pub open spec fn record_classification(
    current: Map<Seq<char>, ClassificationStateView>,
    path: Seq<u8>,
    decision: WorktreeDecisionView,
) -> Map<Seq<char>, ClassificationStateView> {
    current.insert(text::lossy_text(path), remembered(decision))
}

fn is_changed(
    previous: Option<&TextMap<ClassificationState>>,
    path: &FilePath,
    decision: &WorktreeDecision,
) -> (changed: bool)
    ensures
        changed == classification_changed(
            match previous {
                None => Map::empty(),
                Some(previous) => previous.deep_view(),
            },
            path@,
            decision.deep_view(),
        ),
{
    let previous = match previous {
        None => return true,
        Some(previous) => previous,
    };
    let key = path.display();
    match previous.get(key.as_str()) {
        None => true,
        Some(last) => {
            let same = text::same_text(last.classification.as_str(), decision.outcome.name())
                && text::same_text(last.reason_code.as_str(), decision.reason_code.name());
            proof {
                let wanted = remembered(decision.deep_view());
                if same {
                    assert(last.deep_view() == wanted);
                }
            }
            !same
        },
    }
}

/// The classifications that were remembered of a repository before this run.
pub open spec fn previous_classifications(state: StateView, common: Seq<u8>) -> Map<
    Seq<char>,
    ClassificationStateView,
> {
    let key = text::lossy_text(common);
    if state.repositories.contains_key(key) {
        state.repositories[key].last_classifications
    } else {
        Map::empty()
    }
}

/// The record on a worktree.
pub open spec fn worktree_event(
    repository: Seq<u8>,
    path: Seq<u8>,
    decision: WorktreeDecisionView,
    classification_changed: bool,
) -> EventView {
    EventView::Worktree {
        schema_version: OUTPUT_SCHEMA_VERSION,
        repository,
        path,
        outcome: decision.outcome,
        reason_code: decision.reason_code,
        classification_changed,
        message: decision.message,
    }
}

/// The record on a decision about the path, with what was remembered before.
pub open spec fn decision_event(
    work: WorkView,
    path: Seq<u8>,
    decision: WorktreeDecisionView,
) -> EventView {
    let repository = current_repository(work);
    worktree_event(
        repository.path,
        path,
        decision,
        classification_changed(
            previous_classifications(work.state, repository.git_common_directory),
            path,
            decision,
        ),
    )
}

fn new_decision_event(work: &Work, path: &FilePath, decision: &WorktreeDecision) -> (event: Event)
    requires
        work.repository < work.discovery.repositories.len(),
    ensures
        event.deep_view() == decision_event(work.deep_view(), path@, decision.deep_view()),
{
    let repository = &work.discovery.repositories[work.repository];
    assert(work.discovery.repositories.deep_view()[work.repository as int]
        == repository.deep_view());
    let key = repository.git_common_directory.display();
    let changed = match work.state.repositories.get(key.as_str()) {
        None => is_changed(None, path, decision),
        Some(remembered) => is_changed(Some(&remembered.last_classifications), path, decision),
    };
    Event::Worktree {
        schema_version: OUTPUT_SCHEMA_VERSION,
        repository: repository.path.clone(),
        path: path.clone(),
        outcome: decision.outcome,
        reason_code: decision.reason_code,
        classification_changed: changed,
        message: text::clone_optional(&decision.message),
    }
}

/// The decision on a worktree, and the record on it.
pub open spec fn deciding_flow(work: WorkView, apply: bool, replies: Seq<ReplyView>) -> Flow<
    Result<WorktreeDecisionView, Seq<char>>,
> {
    let worktree = work.inspection.worktrees[work.worktree as int];
    match decision::decide_flow(
        current_repository(work).path,
        worktree,
        work.config.check_processes,
        work.config.fetch_timeout_seconds,
        apply,
        replies,
        0,
    ) {
        Flow::Ask(request) => Flow::Ask(request),
        Flow::Done(decision, next) => match emit_flow(
            decision_event(work, worktree.path, decision),
            replies,
            next,
        ) {
            Flow::Ask(request) => Flow::Ask(request),
            Flow::Done(Err(error), next) => Flow::Done(Err(error), next),
            Flow::Done(Ok(()), next) => Flow::Done(Ok(decision), next),
        },
    }
}

fn deciding(work: &Work, apply: bool, replies: &Vec<Reply>) -> (step: Step<
    Result<WorktreeDecision, String>,
>)
    requires
        work.repository < work.discovery.repositories.len(),
        work.worktree < work.inspection.worktrees.len(),
    ensures
        flow::step_view(step) == deciding_flow(work.deep_view(), apply, replies.deep_view()),
{
    let repository = &work.discovery.repositories[work.repository];
    assert(work.discovery.repositories.deep_view()[work.repository as int]
        == repository.deep_view());
    let worktree = &work.inspection.worktrees[work.worktree];
    assert(work.inspection.worktrees.deep_view()[work.worktree as int] == worktree.deep_view());
    let (decided, next) = match decision::decide_worktree(
        &repository.path,
        worktree,
        work.config.check_processes,
        work.config.fetch_timeout_seconds,
        apply,
        replies,
        0,
    ) {
        Step::Ask(request) => return Step::Ask(request),
        Step::Done(decided, next) => (decided, next),
    };
    match write_event(new_decision_event(work, &worktree.path, &decided), replies, next) {
        Step::Ask(request) => Step::Ask(request),
        Step::Done(Err(error), next) => Step::Done(Err(error), next),
        Step::Done(Ok(()), next) => Step::Done(Ok(decided), next),
    }
}

/// The paths of the worktrees of an inspection.
pub open spec fn inventory_paths(worktrees: Seq<WorktreeInspectionView>) -> Seq<Seq<u8>> {
    Seq::new(worktrees.len(), |i: int| worktrees[i].path)
}

fn list_inventory(worktrees: &Vec<WorktreeInspection>) -> (paths: Vec<FilePath>)
    ensures
        paths.deep_view() == inventory_paths(worktrees.deep_view()),
{
    let ghost goal = inventory_paths(worktrees.deep_view());
    let mut paths: Vec<FilePath> = Vec::new();
    let mut i: usize = 0;
    assert(paths.deep_view() =~= goal.take(0));
    while i < worktrees.len()
        invariant
            i <= worktrees.len(),
            goal == inventory_paths(worktrees.deep_view()),
            paths.deep_view() == goal.take(i as int),
        decreases worktrees.len() - i,
    {
        filepath::push_path(&mut paths, worktrees[i].path.clone());
        assert(goal[i as int] == worktrees[i as int].path@);
        assert(goal.take(i + 1) =~= goal.take(i as int).push(goal[i as int]));
        i += 1;
    }
    assert(goal.take(i as int) =~= goal);
    paths
}

/// The records on the decisions from number `i` on.
pub open spec fn emit_all_flow(
    work: WorkView,
    decisions: Seq<StaleDecisionView>,
    i: int,
    replies: Seq<ReplyView>,
    at: int,
) -> Flow<Result<(), Seq<char>>>
    decreases decisions.len() - i,
{
    if i >= decisions.len() {
        Flow::Done(Ok(()), at)
    } else {
        match emit_flow(
            decision_event(work, decisions[i].path, decisions[i].decision),
            replies,
            at,
        ) {
            Flow::Done(Ok(()), next) => emit_all_flow(work, decisions, i + 1, replies, next),
            other => other,
        }
    }
}

/// The reconciliation of a repository with Herdr, and the records on its decisions.
pub open spec fn reconciling_flow(work: WorkView, apply: bool, replies: Seq<ReplyView>) -> Flow<
    Result<ReconciliationView, Seq<char>>,
> {
    match decision::reconcile_flow(
        current_repository(work).git_common_directory,
        inventory_paths(work.inspection.worktrees),
        work.config.fetch_timeout_seconds,
        apply,
        replies,
        0,
    ) {
        Flow::Ask(request) => Flow::Ask(request),
        Flow::Done(result, next) => match emit_all_flow(work, result.decisions, 0, replies, next) {
            Flow::Ask(request) => Flow::Ask(request),
            Flow::Done(Err(error), next) => Flow::Done(Err(error), next),
            Flow::Done(Ok(()), next) => Flow::Done(Ok(result), next),
        },
    }
}

fn emit_all(work: &Work, decisions: &Vec<StaleDecision>, replies: &Vec<Reply>, at: usize) -> (step:
    Step<Result<(), String>>)
    requires
        work.repository < work.discovery.repositories.len(),
    ensures
        flow::step_view(step) == emit_all_flow(
            work.deep_view(),
            decisions.deep_view(),
            0,
            replies.deep_view(),
            at as int,
        ),
{
    let ghost all = decisions.deep_view();
    let ghost goal = emit_all_flow(work.deep_view(), all, 0, replies.deep_view(), at as int);
    let mut position: usize = at;
    let mut i: usize = 0;
    while i < decisions.len()
        invariant
            i <= decisions.len(),
            work.repository < work.discovery.repositories.len(),
            all == decisions.deep_view(),
            goal == emit_all_flow(work.deep_view(), all, 0, replies.deep_view(), at as int),
            goal == emit_all_flow(
                work.deep_view(),
                all,
                i as int,
                replies.deep_view(),
                position as int,
            ),
        decreases decisions.len() - i,
    {
        assert(all[i as int] == decisions[i as int].deep_view());
        let event = new_decision_event(work, &decisions[i].path, &decisions[i].decision);
        match write_event(event, replies, position) {
            Step::Ask(request) => return Step::Ask(request),
            Step::Done(Err(error), next) => return Step::Done(Err(error), next),
            Step::Done(Ok(()), next) => {
                position = next;
            },
        }
        i += 1;
    }
    Step::Done(Ok(()), position)
}

fn reconciling(work: &Work, apply: bool, replies: &Vec<Reply>) -> (step: Step<
    Result<Reconciliation, String>,
>)
    requires
        work.repository < work.discovery.repositories.len(),
    ensures
        flow::step_view(step) == reconciling_flow(work.deep_view(), apply, replies.deep_view()),
{
    let repository = &work.discovery.repositories[work.repository];
    assert(work.discovery.repositories.deep_view()[work.repository as int]
        == repository.deep_view());
    let inventory = list_inventory(&work.inspection.worktrees);
    let (result, next) = match decision::reconcile_stale_herdr_workspaces(
        &repository.git_common_directory,
        &inventory,
        work.config.fetch_timeout_seconds,
        apply,
        replies,
        0,
    ) {
        Step::Ask(request) => return Step::Ask(request),
        Step::Done(result, next) => (result, next),
    };
    match emit_all(work, &result.decisions, replies, next) {
        Step::Ask(request) => Step::Ask(request),
        Step::Done(Err(error), next) => Step::Done(Err(error), next),
        Step::Done(Ok(()), next) => Step::Done(Ok(result), next),
    }
}

/// The record on a problem of the search.
pub open spec fn issue_event(issue: DiscoveryIssueView) -> EventView {
    EventView::DiscoveryFailure {
        schema_version: OUTPUT_SCHEMA_VERSION,
        path: issue.path,
        reason_code: decision::issue_reason(issue.kind),
        message: issue.message,
    }
}

/// The record on the totals, and the handing on of all output.
pub open spec fn summarizing_flow(summary: Summary, replies: Seq<ReplyView>) -> Flow<
    Result<(), Seq<char>>,
> {
    match emit_flow(EventView::Summary { summary }, replies, 0) {
        Flow::Done(Ok(()), next) => if next >= replies.len() {
            Flow::Ask(RequestView::Flush)
        } else {
            match write_error(replies[next]) {
                None => Flow::Done(Ok(()), next + 1),
                Some(error) => Flow::Done(Err(error), next + 1),
            }
        },
        other => other,
    }
}

fn summarizing(summary: &Summary, replies: &Vec<Reply>) -> (step: Step<Result<(), String>>)
    ensures
        flow::step_view(step) == summarizing_flow(*summary, replies.deep_view()),
{
    match write_event(Event::summary(summary), replies, 0) {
        Step::Ask(request) => Step::Ask(request),
        Step::Done(Err(error), next) => Step::Done(Err(error), next),
        Step::Done(Ok(()), next) => {
            if next >= replies.len() {
                return Step::Ask(Request::Flush);
            }
            assert(replies.deep_view()[next as int] == replies[next as int].deep_view());
            match read_written(&replies[next]) {
                None => Step::Done(Ok(()), next + 1),
                Some(error) => Step::Done(Err(error), next + 1),
            }
        },
    }
}

/// The request of a piece of work; nothing where it is done.
pub open spec fn asked<T>(piece: Flow<T>) -> Option<RequestView> {
    match piece {
        Flow::Ask(request) => Some(request),
        Flow::Done(_, _) => None,
    }
}

/// What a run asks for; nothing once it is over.
pub open spec fn run_request(run: RunView) -> Option<RequestView> {
    match run.phase {
        PhaseView::Starting => asked(start_flow(run.cli, run.paths, run.home, run.replies)),
        PhaseView::Discovering(work) => discovery::search_request(work.search),
        PhaseView::Inspecting(work) => if work.repository < work.discovery.repositories.len() {
            asked(inspecting_flow(work, run.replies))
        } else {
            None
        },
        PhaseView::Deciding(work) => if work.repository < work.discovery.repositories.len()
            && work.worktree < work.inspection.worktrees.len() {
            asked(deciding_flow(work, applies(run.cli), run.replies))
        } else {
            None
        },
        PhaseView::Reconciling(work) => if work.repository < work.discovery.repositories.len() {
            asked(reconciling_flow(work, applies(run.cli), run.replies))
        } else {
            None
        },
        PhaseView::Reporting(work) => if work.issue < work.discovery.issues.len() {
            Some(RequestView::Emit(issue_event(work.discovery.issues[work.issue as int])))
        } else {
            None
        },
        PhaseView::Saving(work) => Some(
            RequestView::SaveState {
                directory: lock::directory_of(run.paths.state_file),
                path: run.paths.state_file,
                state: work.state,
            },
        ),
        PhaseView::Summarizing(work) => asked(summarizing_flow(work.summary, run.replies)),
        PhaseView::Finished(_) => None,
    }
}

/// The work after the inspection of a repository.
pub open spec fn after_inspection(
    work: WorkView,
    inspection: RepositoryInspectionView,
) -> WorkView {
    WorkView {
        summary: decision::count_repository(work.summary, inspection.outcome),
        inspection,
        worktree: 0,
        ..work
    }
}

/// The work after a decision on a worktree.
pub open spec fn after_decision(work: WorkView, decision: WorktreeDecisionView) -> WorkView {
    WorkView {
        summary: decision::count_decision(
            Summary {
                worktrees_inspected: output::raised(work.summary.worktrees_inspected, 1),
                ..work.summary
            },
            decision,
        ),
        current: record_classification(
            work.current,
            work.inspection.worktrees[work.worktree as int].path,
            decision,
        ),
        worktree: (work.worktree + 1) as usize,
        ..work
    }
}

/// The totals with all decisions about workspaces.
pub open spec fn count_stale(summary: Summary, decisions: Seq<StaleDecisionView>) -> Summary
    decreases decisions.len(),
{
    if decisions.len() == 0 {
        summary
    } else {
        decision::count_decision(
            count_stale(summary, decisions.drop_last()),
            decisions.last().decision,
        )
    }
}

/// The classifications with those of all decisions about workspaces.
pub open spec fn record_stale(
    current: Map<Seq<char>, ClassificationStateView>,
    decisions: Seq<StaleDecisionView>,
) -> Map<Seq<char>, ClassificationStateView>
    decreases decisions.len(),
{
    if decisions.len() == 0 {
        current
    } else {
        record_classification(
            record_stale(current, decisions.drop_last()),
            decisions.last().path,
            decisions.last().decision,
        )
    }
}

/// The state that remembers the classifications of a repository, in place of all that it had of
/// them; what else it remembers of it stays.
pub open spec fn remember_repository(
    state: StateView,
    common: Seq<u8>,
    current: Map<Seq<char>, ClassificationStateView>,
) -> StateView {
    let key = text::lossy_text(common);
    StateView {
        repositories: state.repositories.insert(
            key,
            RepositoryStateView {
                last_successful_fetch_at: if state.repositories.contains_key(key) {
                    state.repositories[key].last_successful_fetch_at
                } else {
                    None
                },
                last_classifications: current,
            },
        ),
        ..state
    }
}

/// The work after the reconciliation of a repository, which ends the work on it.
pub open spec fn after_reconciliation(work: WorkView, result: ReconciliationView) -> WorkView {
    let summary = if result.failed {
        work.summary.with_failure()
    } else {
        work.summary
    };
    WorkView {
        summary: count_stale(
            Summary {
                worktrees_inspected: output::raised(
                    summary.worktrees_inspected,
                    result.decisions.len(),
                ),
                ..summary
            },
            result.decisions,
        ),
        state: remember_repository(
            work.state,
            current_repository(work).git_common_directory,
            record_stale(work.current, result.decisions),
        ),
        current: Map::empty(),
        inspection: no_inspection(),
        repository: (work.repository + 1) as usize,
        ..work
    }
}

/// The end of a run.
pub open spec fn finished(result: Result<Summary, ErrorView>) -> PhaseView {
    PhaseView::Finished(result)
}

/// The phase that follows the start.
pub open spec fn after_start(
    started: Flow<Result<(ConfigView, StateView, CommandName, bool), ErrorView>>,
) -> Option<PhaseView> {
    match started {
        Flow::Ask(_) => None,
        Flow::Done(Err(error), _) => Some(finished(Err(error))),
        Flow::Done(Ok((config, state, command, apply)), _) => Some(
            enter_search(first_work(config, state, command, apply)),
        ),
    }
}

/// The phase that follows the inspection of a repository.
pub open spec fn after_inspecting(work: WorkView, replies: Seq<ReplyView>) -> Option<PhaseView> {
    if work.repository < work.discovery.repositories.len() {
        match inspecting_flow(work, replies) {
            Flow::Ask(_) => None,
            Flow::Done(Err(error), _) => Some(finished(Err(ErrorView::Output(error)))),
            Flow::Done(Ok(inspection), _) => Some(
                enter_worktree(after_inspection(work, inspection)),
            ),
        }
    } else {
        Some(PhaseView::Inspecting(work))
    }
}

/// The phase that follows the decision on a worktree.
pub open spec fn after_deciding(work: WorkView, apply: bool, replies: Seq<ReplyView>) -> Option<
    PhaseView,
> {
    if work.repository < work.discovery.repositories.len() && work.worktree
        < work.inspection.worktrees.len() {
        match deciding_flow(work, apply, replies) {
            Flow::Ask(_) => None,
            Flow::Done(Err(error), _) => Some(finished(Err(ErrorView::Output(error)))),
            Flow::Done(Ok(decision), _) => Some(enter_worktree(after_decision(work, decision))),
        }
    } else {
        Some(PhaseView::Deciding(work))
    }
}

/// The phase that follows the reconciliation of a repository.
pub open spec fn after_reconciling(work: WorkView, apply: bool, replies: Seq<ReplyView>) -> Option<
    PhaseView,
> {
    if work.repository < work.discovery.repositories.len() {
        match reconciling_flow(work, apply, replies) {
            Flow::Ask(_) => None,
            Flow::Done(Err(error), _) => Some(finished(Err(ErrorView::Output(error)))),
            Flow::Done(Ok(result), _) => Some(
                enter_repository(after_reconciliation(work, result)),
            ),
        }
    } else {
        Some(PhaseView::Reconciling(work))
    }
}

/// The phase that follows the report of a problem.
pub open spec fn after_reporting(work: WorkView, reply: ReplyView) -> PhaseView {
    if work.issue < work.discovery.issues.len() {
        match write_error(reply) {
            Some(error) => finished(Err(ErrorView::Output(error))),
            None => enter_issue(WorkView { issue: (work.issue + 1) as usize, ..work }),
        }
    } else {
        PhaseView::Reporting(work)
    }
}

/// The phase that follows the report of the totals.
pub open spec fn after_summarizing(work: WorkView, replies: Seq<ReplyView>) -> Option<PhaseView> {
    match summarizing_flow(work.summary, replies) {
        Flow::Ask(_) => None,
        Flow::Done(Err(error), _) => Some(finished(Err(ErrorView::Output(error)))),
        Flow::Done(Ok(()), _) => Some(finished(Ok(work.summary))),
    }
}

/// The phase that follows once the piece of work of a phase is done; nothing while it goes on.
pub open spec fn next_phase(run: RunView, replies: Seq<ReplyView>) -> Option<PhaseView> {
    match run.phase {
        PhaseView::Starting => after_start(start_flow(run.cli, run.paths, run.home, replies)),
        PhaseView::Discovering(work) => Some(
            enter_search(
                WorkView {
                    search: discovery::search_advance(work.search, replies.last()),
                    ..work
                },
            ),
        ),
        PhaseView::Inspecting(work) => after_inspecting(work, replies),
        PhaseView::Deciding(work) => after_deciding(work, applies(run.cli), replies),
        PhaseView::Reconciling(work) => after_reconciling(work, applies(run.cli), replies),
        PhaseView::Reporting(work) => Some(after_reporting(work, replies.last())),
        PhaseView::Saving(work) => match state::save_error(run.paths.state_file, replies.last()) {
            Some(error) => Some(finished(Err(ErrorView::State(error)))),
            None => Some(PhaseView::Summarizing(work)),
        },
        PhaseView::Summarizing(work) => after_summarizing(work, replies),
        PhaseView::Finished(result) => Some(finished(result)),
    }
}

/// A run after a reply.
pub open spec fn run_advance(run: RunView, reply: ReplyView) -> RunView {
    let replies = run.replies.push(reply);
    match next_phase(run, replies) {
        None => RunView { replies, ..run },
        Some(phase) => RunView { phase, replies: Seq::empty(), ..run },
    }
}

/// A run that has not started.
pub open spec fn new_run(cli: Cli, paths: AppPathsView, home: Option<Seq<u8>>) -> RunView {
    RunView { cli, paths, home, phase: PhaseView::Starting, replies: Seq::empty() }
}

/// Runs the tool with files where the environment says that they are. It is an error where that
/// is not known.
pub fn run(cli: Cli, environment: &Environment) -> (result: Result<Run, Error>)
    ensures
        flow::result_view(result) == (match paths::resolve_paths(environment.deep_view()) {
            Err(error) => Err(ErrorView::Paths(error)),
            Ok(paths) => Ok(new_run(cli, paths, environment.deep_view().home)),
        }),
{
    match AppPaths::from_env(environment) {
        Err(error) => Err(Error::Paths(error)),
        Ok(paths) => Ok(run_with_paths(cli, &paths, &environment.home)),
    }
}

/// Runs the tool using pre-resolved application paths.
pub fn run_with_paths(cli: Cli, paths: &AppPaths, home: &Option<FilePath>) -> (run: Run)
    ensures
        run.deep_view() == new_run(cli, paths.deep_view(), home.deep_view()),
{
    let replies: Vec<Reply> = Vec::new();
    assert(replies.deep_view() =~= Seq::empty());
    Run {
        cli,
        paths: paths.clone(),
        home: filepath::clone_optional(home),
        phase: Phase::Starting,
        replies,
    }
}

fn is_applied(cli: Cli) -> (apply: bool)
    ensures
        apply == applies(cli),
{
    match cli.command {
        Command::Prune { yes } => yes,
        _ => false,
    }
}

fn request_of<T>(step: Step<T>) -> (request: Option<Request>)
    ensures
        request.deep_view() == (match step {
            Step::Ask(request) => Some(request.deep_view()),
            Step::Done(_, _) => None,
        }),
{
    match step {
        Step::Ask(request) => Some(request),
        Step::Done(_, _) => None,
    }
}

fn count_all_stale(summary: Summary, decisions: &Vec<StaleDecision>) -> (total: Summary)
    ensures
        total == count_stale(summary, decisions.deep_view()),
{
    let ghost all = decisions.deep_view();
    let mut total = summary;
    let mut i: usize = 0;
    assert(all.take(0) =~= Seq::empty());
    while i < decisions.len()
        invariant
            i <= decisions.len(),
            all == decisions.deep_view(),
            total == count_stale(summary, all.take(i as int)),
        decreases decisions.len() - i,
    {
        assert(all.take(i + 1).drop_last() =~= all.take(i as int));
        assert(all.take(i + 1).last() == decisions[i as int].deep_view());
        total = decision::update_worktree_summary(total, &decisions[i].decision);
        i += 1;
    }
    assert(all.take(i as int) =~= all);
    total
}

fn record_decision(
    current: TextMap<ClassificationState>,
    path: &FilePath,
    decision: &WorktreeDecision,
) -> (recorded: TextMap<ClassificationState>)
    ensures
        recorded.deep_view() == record_classification(
            current.deep_view(),
            path@,
            decision.deep_view(),
        ),
{
    current.with(
        path.display(),
        ClassificationState {
            classification: decision.outcome.name().to_owned(),
            reason_code: decision.reason_code.name().to_owned(),
        },
    )
}

fn record_all_stale(
    current: TextMap<ClassificationState>,
    decisions: &Vec<StaleDecision>,
) -> (recorded: TextMap<ClassificationState>)
    ensures
        recorded.deep_view() == record_stale(current.deep_view(), decisions.deep_view()),
{
    let ghost all = decisions.deep_view();
    let ghost start = current.deep_view();
    let mut recorded = current;
    let mut i: usize = 0;
    assert(all.take(0) =~= Seq::empty());
    while i < decisions.len()
        invariant
            i <= decisions.len(),
            all == decisions.deep_view(),
            recorded.deep_view() == record_stale(start, all.take(i as int)),
        decreases decisions.len() - i,
    {
        assert(all.take(i + 1).drop_last() =~= all.take(i as int));
        assert(all.take(i + 1).last() == decisions[i as int].deep_view());
        recorded = record_decision(recorded, &decisions[i].path, &decisions[i].decision);
        i += 1;
    }
    assert(all.take(i as int) =~= all);
    recorded
}

fn remember(state: State, common: &FilePath, current: TextMap<ClassificationState>) -> (remembered:
    State)
    ensures
        remembered.deep_view() == remember_repository(
            state.deep_view(),
            common@,
            current.deep_view(),
        ),
{
    let key = common.display();
    let fetched = match state.repositories.get(key.as_str()) {
        None => None,
        Some(known) => text::clone_optional(&known.last_successful_fetch_at),
    };
    State {
        schema_version: state.schema_version,
        tool_version: state.tool_version,
        repositories: state.repositories.with(
            key,
            RepositoryState { last_successful_fetch_at: fetched, last_classifications: current },
        ),
    }
}

fn leave_inspection(work: Work, inspection: RepositoryInspection) -> (phase: Phase)
    ensures
        phase.deep_view() == enter_worktree(
            after_inspection(work.deep_view(), inspection.deep_view()),
        ),
{
    let mut work = work;
    work.summary = decision::update_repository_summary(work.summary, inspection.outcome);
    work.inspection = inspection;
    work.worktree = 0;
    go_to_worktree(work)
}

fn leave_decision(work: Work, decided: WorktreeDecision) -> (phase: Phase)
    requires
        work.worktree < work.inspection.worktrees.len(),
    ensures
        phase.deep_view() == enter_worktree(after_decision(work.deep_view(), decided.deep_view())),
{
    let Work { config, state, summary, search, discovery, repository, inspection, worktree, current, issue } =
        work;
    assert(inspection.worktrees.deep_view()[worktree as int]
        == inspection.worktrees[worktree as int].deep_view());
    let mut totals = summary;
    totals.worktrees_inspected = output::raise(totals.worktrees_inspected, 1);
    totals = decision::update_worktree_summary(totals, &decided);
    let current = record_decision(current, &inspection.worktrees[worktree].path, &decided);
    go_to_worktree(
        Work {
            config,
            state,
            summary: totals,
            search,
            discovery,
            repository,
            inspection,
            worktree: worktree + 1,
            current,
            issue,
        },
    )
}

fn leave_reconciliation(work: Work, result: Reconciliation) -> (phase: Phase)
    requires
        work.repository < work.discovery.repositories.len(),
    ensures
        phase.deep_view() == enter_repository(
            after_reconciliation(work.deep_view(), result.deep_view()),
        ),
{
    let Work { config, state, summary, search, discovery, repository, inspection: _, worktree, current, issue } =
        work;
    assert(discovery.repositories.deep_view()[repository as int]
        == discovery.repositories[repository as int].deep_view());
    let mut totals = summary;
    if result.failed {
        totals = totals.count_failure();
    }
    totals.worktrees_inspected = output::raise(
        totals.worktrees_inspected,
        result.decisions.len() as u64,
    );
    totals = count_all_stale(totals, &result.decisions);
    let recorded = record_all_stale(current, &result.decisions);
    let state = remember(
        state,
        &discovery.repositories[repository].git_common_directory,
        recorded,
    );
    go_to_repository(
        Work {
            config,
            state,
            summary: totals,
            search,
            discovery,
            repository: repository + 1,
            inspection: new_inspection(),
            worktree,
            current: TextMap::new(),
            issue,
        },
    )
}

/// Whether a settled phase is the one that follows, or else the same.
pub open spec fn settled_as(
    settled: (Phase, bool),
    before: PhaseView,
    next: Option<PhaseView>,
) -> bool {
    if settled.1 {
        next == Some(settled.0.deep_view())
    } else {
        next is None && settled.0.deep_view() == before
    }
}

fn settle_start(
    cli: Cli,
    paths: &AppPaths,
    home: &Option<FilePath>,
    replies: &Vec<Reply>,
) -> (settled: (
    Phase,
    bool,
))
    ensures
        settled_as(
            settled,
            PhaseView::Starting,
            after_start(start_flow(cli, paths.deep_view(), home.deep_view(), replies.deep_view())),
        ),
{
    match start(cli, paths, home, replies) {
        Step::Ask(_) => (Phase::Starting, false),
        Step::Done(Err(error), _) => (Phase::Finished(Err(error)), true),
        Step::Done(Ok((config, state, command, apply)), _) => (
            go_to_search(new_work(config, state, command, apply)),
            true,
        ),
    }
}

fn settle_inspecting(work: Work, replies: &Vec<Reply>) -> (settled: (Phase, bool))
    ensures
        settled_as(
            settled,
            PhaseView::Inspecting(work.deep_view()),
            after_inspecting(work.deep_view(), replies.deep_view()),
        ),
{
    if work.repository >= work.discovery.repositories.len() {
        return (Phase::Inspecting(work), true);
    }
    match inspecting(&work, replies) {
        Step::Ask(_) => (Phase::Inspecting(work), false),
        Step::Done(Err(error), _) => (Phase::Finished(Err(Error::Output(error))), true),
        Step::Done(Ok(full), _) => (leave_inspection(work, full), true),
    }
}

fn settle_deciding(work: Work, apply: bool, replies: &Vec<Reply>) -> (settled: (Phase, bool))
    ensures
        settled_as(
            settled,
            PhaseView::Deciding(work.deep_view()),
            after_deciding(work.deep_view(), apply, replies.deep_view()),
        ),
{
    if work.repository >= work.discovery.repositories.len() || work.worktree
        >= work.inspection.worktrees.len() {
        return (Phase::Deciding(work), true);
    }
    match deciding(&work, apply, replies) {
        Step::Ask(_) => (Phase::Deciding(work), false),
        Step::Done(Err(error), _) => (Phase::Finished(Err(Error::Output(error))), true),
        Step::Done(Ok(decided), _) => (leave_decision(work, decided), true),
    }
}

fn settle_reconciling(work: Work, apply: bool, replies: &Vec<Reply>) -> (settled: (Phase, bool))
    ensures
        settled_as(
            settled,
            PhaseView::Reconciling(work.deep_view()),
            after_reconciling(work.deep_view(), apply, replies.deep_view()),
        ),
{
    if work.repository >= work.discovery.repositories.len() {
        return (Phase::Reconciling(work), true);
    }
    match reconciling(&work, apply, replies) {
        Step::Ask(_) => (Phase::Reconciling(work), false),
        Step::Done(Err(error), _) => (Phase::Finished(Err(Error::Output(error))), true),
        Step::Done(Ok(result), _) => (leave_reconciliation(work, result), true),
    }
}

fn settle_reporting(work: Work, reply: &Reply) -> (phase: Phase)
    ensures
        phase.deep_view() == after_reporting(work.deep_view(), reply.deep_view()),
{
    if work.issue >= work.discovery.issues.len() {
        return Phase::Reporting(work);
    }
    match read_written(reply) {
        Some(error) => Phase::Finished(Err(Error::Output(error))),
        None => {
            let mut work = work;
            work.issue = work.issue + 1;
            go_to_issue(work)
        },
    }
}

fn settle_summarizing(work: Work, replies: &Vec<Reply>) -> (settled: (Phase, bool))
    ensures
        settled_as(
            settled,
            PhaseView::Summarizing(work.deep_view()),
            after_summarizing(work.deep_view(), replies.deep_view()),
        ),
{
    match summarizing(&work.summary, replies) {
        Step::Ask(_) => (Phase::Summarizing(work), false),
        Step::Done(Err(error), _) => (Phase::Finished(Err(Error::Output(error))), true),
        Step::Done(Ok(()), _) => (Phase::Finished(Ok(work.summary)), true),
    }
}

/// The phase once the replies are in, and whether it is another one.
fn settle(
    cli: Cli,
    paths: &AppPaths,
    home: &Option<FilePath>,
    phase: Phase,
    replies: &Vec<Reply>,
) -> (settled: (Phase, bool))
    requires
        replies.len() > 0,
        !(phase is Discovering),
    ensures
        settled_as(
            settled,
            phase.deep_view(),
            next_phase(
                RunView {
                    cli,
                    paths: paths.deep_view(),
                    home: home.deep_view(),
                    phase: phase.deep_view(),
                    replies: Seq::empty(),
                },
                replies.deep_view(),
            ),
        ),
{
    let last = &replies[replies.len() - 1];
    assert(replies.deep_view().last() == last.deep_view());
    match phase {
        Phase::Starting => settle_start(cli, paths, home, replies),
        Phase::Inspecting(work) => settle_inspecting(work, replies),
        Phase::Deciding(work) => settle_deciding(work, is_applied(cli), replies),
        Phase::Reconciling(work) => settle_reconciling(work, is_applied(cli), replies),
        Phase::Reporting(work) => (settle_reporting(work, last), true),
        Phase::Saving(work) => match State::saved(&paths.state_file, last) {
            Some(error) => (Phase::Finished(Err(Error::State(error))), true),
            None => (Phase::Summarizing(work), true),
        },
        Phase::Summarizing(work) => settle_summarizing(work, replies),
        Phase::Discovering(work) => (Phase::Discovering(work), true),
        Phase::Finished(result) => (Phase::Finished(result), true),
    }
}

impl Run {
    /// What the run asks for; nothing once it is over.
    pub fn request(&self) -> (request: Option<Request>)
        ensures
            request.deep_view() == run_request(self.deep_view()),
    {
        match &self.phase {
            Phase::Starting => request_of(start(self.cli, &self.paths, &self.home, &self.replies)),
            Phase::Discovering(work) => work.search.request(),
            Phase::Inspecting(work) => if work.repository < work.discovery.repositories.len() {
                request_of(inspecting(work, &self.replies))
            } else {
                None
            },
            Phase::Deciding(work) => if work.repository < work.discovery.repositories.len()
                && work.worktree < work.inspection.worktrees.len() {
                request_of(deciding(work, is_applied(self.cli), &self.replies))
            } else {
                None
            },
            Phase::Reconciling(work) => if work.repository < work.discovery.repositories.len() {
                request_of(reconciling(work, is_applied(self.cli), &self.replies))
            } else {
                None
            },
            Phase::Reporting(work) => if work.issue < work.discovery.issues.len() {
                let issue = &work.discovery.issues[work.issue];
                assert(work.discovery.issues.deep_view()[work.issue as int] == issue.deep_view());
                Some(
                    Request::Emit(
                        Event::DiscoveryFailure {
                            schema_version: OUTPUT_SCHEMA_VERSION,
                            path: issue.path.clone(),
                            reason_code: decision::reason_code(issue.kind),
                            message: issue.message.clone(),
                        },
                    ),
                )
            } else {
                None
            },
            Phase::Saving(work) => Some(work.state.save(&self.paths.state_file)),
            Phase::Summarizing(work) => request_of(summarizing(&work.summary, &self.replies)),
            Phase::Finished(_) => None,
        }
    }

    /// The run after a reply to its request.
    pub fn advance(self, reply: Reply) -> (run: Run)
        ensures
            run.deep_view() == run_advance(self.deep_view(), reply.deep_view()),
    {
        let ghost all = self.replies.deep_view().push(reply.deep_view());
        assert(all.last() == reply.deep_view());
        let Run { cli, paths, home, phase, replies: held } = self;
        let none: Vec<Reply> = Vec::new();
        assert(none.deep_view() =~= Seq::empty());
        if let Phase::Discovering(work) = phase {
            let mut work = work;
            work.search = work.search.advance(reply);
            return Run { cli, paths, home, phase: go_to_search(work), replies: none };
        }
        let mut replies = held;
        discovery::push_reply(&mut replies, reply);
        match settle(cli, &paths, &home, phase, &replies) {
            (phase, true) => Run { cli, paths, home, phase, replies: none },
            (phase, false) => Run { cli, paths, home, phase, replies },
        }
    }

    /// How the run ended; nothing while it goes on.
    pub fn outcome(&self) -> (result: Option<&Result<Summary, Error>>)
        ensures
            result is Some <==> self.deep_view().phase is Finished,
            result matches Some(result) ==> self.deep_view().phase == PhaseView::Finished(
                flow::result_view(*result),
            ),
    {
        match &self.phase {
            Phase::Finished(result) => Some(result),
            _ => None,
        }
    }
}

} // verus!
