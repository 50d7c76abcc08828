//! What holds of all scheduling commands.
use crate::cli::ScheduleCommand;
use crate::command::{ReplyView, RequestView};
use crate::discovery;
use crate::discovery::{DiscovererView, DiscoveryView, RepositoryView};
use crate::filepath;
use crate::filepath::ShownPathView;
use crate::flow::Flow;
use crate::launch_agent;
use crate::launch_agent::{LABEL, ScheduleEnvironmentView, ScheduleMode, SchedulePathsView};
use crate::schedule;
use crate::schedule::ScheduleView;
use crate::schedule::backend;
use crate::schedule::backend::{ActionView, ChangeView, MacOsBackendView};
use crate::schedule::error::ScheduleErrorView;
use crate::schedule::preflight;
use crate::schedule::preflight::PreflightFailureView;
use crate::schedule::steps;
use crate::schedule::{Goal, OpeningView, PreparationView, ScheduleContextView, SchedulePhaseView};
use crate::text;
use vstd::prelude::*;
use vstd::utf8::*;

verus! {

/// Whether a request changes nothing.
pub open spec fn only_looks(request: RequestView) -> bool {
    match request {
        RequestView::Exists(_) => true,
        RequestView::ReadFile(_) => true,
        RequestView::LoadSettings(_) => true,
        RequestView::LoadConfig(_) => true,
        RequestView::IsExecutable(_) => true,
        RequestView::IsSocket(_) => true,
        RequestView::Print(_) => true,
        RequestView::Warn(_) => true,
        RequestView::RunProgram(line) => {
            ||| line.arguments == seq!["-u"@]
            ||| line.arguments == seq!["-l"@]
            ||| line.arguments.len() == 2 && line.arguments[0] == "print"@
            ||| line.arguments.len() == 4 && line.arguments[2] == "remote"@ && line.arguments[3]
                == "-v"@
            ||| line.arguments.len() == 7 && line.arguments[2] == "fetch"@ && line.arguments[5]
                == "--dry-run"@
        },
        request => discovery::laws::only_looks_for_repositories(request),
    }
}

/// Whether a piece of work changes nothing with its next request, if it has one.
pub open spec fn asks_only_looks<T>(step: Flow<T>) -> bool {
    step matches Flow::Ask(request) ==> only_looks(request)
}

/// Whether a piece of work changes nothing and tells nothing with its next request, if it has one.
pub open spec fn asks_quietly<T>(step: Flow<T>) -> bool {
    step matches Flow::Ask(request) ==> only_looks(request) && !(request is Print) && !(request
        is Warn)
}

proof fn lemma_find_looks(
    name: Seq<char>,
    directories: Seq<Seq<u8>>,
    i: int,
    replies: Seq<ReplyView>,
    at: int,
)
    ensures
        asks_quietly(steps::find_flow(name, directories, i, replies, at)),
    decreases directories.len() - i,
{
    if i < directories.len() {
        let candidate = filepath::joined(directories[i], encode_utf8(name));
        match steps::found_flow(RequestView::IsExecutable(candidate), replies, at) {
            Flow::Ask(_) => {},
            Flow::Done(_, next) => {
                lemma_find_looks(name, directories, i + 1, replies, next);
            },
        }
    }
}

proof fn lemma_remotes_look(
    git: Seq<u8>,
    repositories: Seq<RepositoryView>,
    i: int,
    ssh: bool,
    replies: Seq<ReplyView>,
    at: int,
)
    ensures
        asks_quietly(preflight::remotes_flow(git, repositories, i, ssh, replies, at)),
    decreases repositories.len() - i,
{
    if i < repositories.len() {
        match steps::output_flow(preflight::remotes_line(git, repositories[i].path), replies, at) {
            Flow::Done(Ok(output), next) => {
                lemma_remotes_look(
                    git,
                    repositories,
                    i + 1,
                    ssh || preflight::any_uses_ssh(
                        text::split_text(text::lossy_text(output.stdout), '\n'),
                    ),
                    replies,
                    next,
                );
            },
            _ => {},
        }
    }
}

proof fn lemma_trials_look(
    environment: ScheduleEnvironmentView,
    timeout: u64,
    repositories: Seq<RepositoryView>,
    i: int,
    failures: Seq<PreflightFailureView>,
    replies: Seq<ReplyView>,
    at: int,
)
    ensures
        asks_quietly(
            preflight::trials_flow(environment, timeout, repositories, i, failures, replies, at),
        ),
    decreases repositories.len() - i,
{
    if i < repositories.len() {
        match steps::output_flow(
            preflight::trial_line(environment, repositories[i].path, timeout),
            replies,
            at,
        ) {
            Flow::Ask(_) => {},
            Flow::Done(result, next) => match preflight::trial_failure(
                repositories[i].path,
                result,
            ) {
                Err(_) => {},
                Ok(None) => {
                    lemma_trials_look(
                        environment,
                        timeout,
                        repositories,
                        i + 1,
                        failures,
                        replies,
                        next,
                    );
                },
                Ok(Some(failure)) => {
                    lemma_trials_look(
                        environment,
                        timeout,
                        repositories,
                        i + 1,
                        failures.push(failure),
                        replies,
                        next,
                    );
                },
            },
        }
    }
}

/// Every repository is tried before the failures are told, one attempt for each, whatever comes
/// of the others.
pub proof fn law_every_repository_is_tried(
    environment: ScheduleEnvironmentView,
    timeout: u64,
    repositories: Seq<RepositoryView>,
    i: int,
    failures: Seq<PreflightFailureView>,
    replies: Seq<ReplyView>,
    at: int,
)
    requires
        0 <= i <= repositories.len(),
    ensures
        preflight::trials_flow(environment, timeout, repositories, i, failures, replies, at) matches Flow::Done(
            Ok(told),
            next,
        ) ==> next == at + repositories.len() - i && failures.is_prefix_of(told)
            && forall|k: int|
            i <= k < repositories.len() ==> ((#[trigger] preflight::trial_failure(
                repositories[k].path,
                steps::output_result(
                    preflight::trial_line(environment, repositories[k].path, timeout),
                    replies[at + k - i],
                ),
            )) matches Ok(failure) && (failure matches Some(failure) ==> told.contains(failure))),
    decreases repositories.len() - i,
{
    if i < repositories.len() {
        let path = repositories[i].path;
        match steps::output_flow(preflight::trial_line(environment, path, timeout), replies, at) {
            Flow::Ask(_) => {},
            Flow::Done(result, next) => {
                match preflight::trial_failure(path, result) {
                    Err(_) => {},
                    Ok(failure) => {
                        let more = match failure {
                            None => failures,
                            Some(failure) => failures.push(failure),
                        };
                        law_every_repository_is_tried(
                            environment,
                            timeout,
                            repositories,
                            i + 1,
                            more,
                            replies,
                            next,
                        );
                        match preflight::trials_flow(
                            environment,
                            timeout,
                            repositories,
                            i + 1,
                            more,
                            replies,
                            next,
                        ) {
                            Flow::Done(Ok(told), _) => {
                                if let Some(failure) = failure {
                                    assert(more[failures.len() as int] == failure);
                                    assert(told[failures.len() as int] == failure);
                                }
                                assert(failures.is_prefix_of(told));
                                assert forall|k: int| i <= k < repositories.len() implies ((
                                #[trigger] preflight::trial_failure(
                                    repositories[k].path,
                                    steps::output_result(
                                        preflight::trial_line(
                                            environment,
                                            repositories[k].path,
                                            timeout,
                                        ),
                                        replies[at + k - i],
                                    ),
                                )) matches Ok(failure) && (failure matches Some(failure)
                                    ==> told.contains(failure))) by {
                                    if k > i {
                                        assert(replies[at + k - i] == replies[next + k - (i + 1)]);
                                    }
                                }
                            },
                            _ => {},
                        }
                    },
                }
            },
        }
    }
}

proof fn lemma_lines_look(
    warning: bool,
    lines: Seq<Seq<char>>,
    i: int,
    replies: Seq<ReplyView>,
    at: int,
)
    ensures
        asks_only_looks(steps::lines_flow(warning, lines, i, replies, at)),
    decreases lines.len() - i,
{
    if i < lines.len() && at < replies.len() {
        lemma_lines_look(warning, lines, i + 1, replies, at + 1);
    }
}

/// The check of the repositories changes nothing: it lists remotes, looks at the SSH agent, and
/// fetches only as a trial. It tells nothing by itself.
pub proof fn law_preflight_only_looks(
    environment: ScheduleEnvironmentView,
    timeout: u64,
    search_path: Option<Seq<u8>>,
    found: DiscoveryView,
    replies: Seq<ReplyView>,
    at: int,
)
    ensures
        asks_quietly(
            preflight::preflight_flow(environment, timeout, search_path, found, replies, at),
        ),
{
    let git = environment.programs.git;
    lemma_remotes_look(git, found.repositories, 0, false, replies, at);
    match preflight::remotes_flow(git, found.repositories, 0, false, replies, at) {
        Flow::Done(Ok(ssh), next) => {
            lemma_agent_looks(environment.ssh_auth_sock, search_path, replies, next);
            match preflight::credentials_flow(environment, ssh, search_path, replies, next) {
                Flow::Done(Ok(_), next) => {
                    lemma_trials_look(
                        environment,
                        timeout,
                        found.repositories,
                        0,
                        Seq::empty(),
                        replies,
                        next,
                    );
                },
                _ => {},
            }
        },
        _ => {},
    }
}

proof fn lemma_agent_looks(
    socket: Option<ShownPathView>,
    search_path: Option<Seq<u8>>,
    replies: Seq<ReplyView>,
    at: int,
)
    ensures
        asks_quietly(preflight::agent_flow(socket, search_path, replies, at)),
{
    match socket {
        None => {},
        Some(socket) => match preflight::socket_flow(socket, replies, at) {
            Flow::Done(Ok(_), next) => {
                lemma_find_looks(
                    "ssh-add"@,
                    steps::search_directories(search_path),
                    0,
                    replies,
                    next,
                );
            },
            _ => {},
        },
    }
}

pub(crate) proof fn lemma_prepare_looks(context: ScheduleContextView, replies: Seq<ReplyView>, at: int)
    ensures
        asks_quietly(schedule::prepare_flow(context, replies, at)),
{
    let directories = steps::search_directories(context.search_path);
    lemma_find_looks("git"@, directories, 0, replies, at);
    match steps::find_flow("git"@, directories, 0, replies, at) {
        Flow::Done(Ok(_), next) => {
            lemma_find_looks("wt"@, directories, 0, replies, next);
        },
        _ => {},
    }
}

proof fn lemma_status_looks(
    context: ScheduleContextView,
    paths: SchedulePathsView,
    backend: MacOsBackendView,
    replies: Seq<ReplyView>,
    at: int,
)
    ensures
        asks_only_looks(schedule::status_flow(context, paths, backend, replies, at)),
{
    match steps::settings_flow(paths.settings, replies, at) {
        Flow::Done(Ok(settings), next) => match backend::loaded_flow(backend, replies, next) {
            Flow::Done(Ok(loaded), next) => match steps::read_flow(
                paths.launch_agent,
                replies,
                next,
            ) {
                Flow::Done(Ok(contents), next) => {
                    let lines = schedule::status_lines(loaded, contents, settings);
                    lemma_lines_look(false, lines, 0, replies, next);
                    match steps::lines_flow(false, lines, 0, replies, next) {
                        Flow::Done(Ok(_), next) => {
                            lemma_prepare_looks(context, replies, next);
                            match schedule::prepare_flow(context, replies, next) {
                                Flow::Done(Err(error), next) => {
                                    lemma_lines_look(
                                        false,
                                        seq![schedule::incomplete_line(error)],
                                        0,
                                        replies,
                                        next,
                                    );
                                },
                                _ => {},
                            }
                        },
                        _ => {},
                    }
                },
                _ => {},
            },
            _ => {},
        },
        _ => {},
    }
}

proof fn lemma_begin_status_looks(context: ScheduleContextView, replies: Seq<ReplyView>)
    ensures
        asks_only_looks(schedule::begin_flow(ScheduleCommand::Status, context, replies)),
{
    match schedule::schedule_paths(context.environment) {
        Err(_) => {},
        Ok(paths) => match backend::system_flow(paths, replies, 0) {
            Flow::Done(Ok(backend), next) => {
                match steps::found_flow(RequestView::Exists(paths.launch_agent), replies, next) {
                    Flow::Done(false, next) => {
                        lemma_lines_look(
                            false,
                            seq![LABEL@ + " is not installed"@],
                            0,
                            replies,
                            next,
                        );
                    },
                    Flow::Done(true, next) => {
                        match steps::found_flow(
                            RequestView::Exists(paths.settings),
                            replies,
                            next,
                        ) {
                            Flow::Done(true, next) => {
                                lemma_status_looks(context, paths, backend, replies, next);
                            },
                            _ => {},
                        }
                    },
                    _ => {},
                }
            },
            _ => {},
        },
    }
}

/// Whether a command may put a schedule that prunes in place though not all repositories can be
/// fetched.
pub open spec fn allows_degraded(command: ScheduleCommand) -> bool {
    match command {
        ScheduleCommand::Install { allow_degraded_preflight } => allow_degraded_preflight,
        ScheduleCommand::Edit { allow_degraded_preflight } => allow_degraded_preflight,
        _ => false,
    }
}

/// Whether a preparation belongs to a command: only a report is made for a status, only what the
/// command allows is allowed, and the settings are valid.
pub open spec fn prepared_for(command: ScheduleCommand, preparation: PreparationView) -> bool {
    (preparation.goal == Goal::Report <==> command == ScheduleCommand::Status)
        && preparation.allow_degraded == allows_degraded(command) && launch_agent::settings_valid(
        preparation.settings,
    )
}

/// Whether a scheduling command stands where its replies have led it.
pub open spec fn schedule_coherent(schedule: ScheduleView) -> bool {
    match schedule.phase {
        SchedulePhaseView::Beginning => {
            schedule::begin_flow(schedule.command, schedule.context, schedule.replies) is Ask
        },
        SchedulePhaseView::Searching(preparation, search) => prepared_for(
            schedule.command,
            preparation,
        ) && discovery::search_request(search) is Some && schedule.replies.len() == 0,
        SchedulePhaseView::Ending(preparation, found) => prepared_for(
            schedule.command,
            preparation,
        ) && schedule::end_flow(preparation, found, schedule.context, schedule.replies) is Ask,
        SchedulePhaseView::Over(_) => true,
    }
}

proof fn lemma_begin_prepares(
    command: ScheduleCommand,
    context: ScheduleContextView,
    replies: Seq<ReplyView>,
)
    ensures
        schedule::begin_flow(command, context, replies) matches Flow::Done(
            Ok(OpeningView::Search(preparation)),
            _,
        ) ==> prepared_for(command, preparation),
{
    match command {
        ScheduleCommand::Uninstall => {},
        ScheduleCommand::Status => {},
        ScheduleCommand::Install { allow_degraded_preflight: _ } => {},
        ScheduleCommand::Edit { allow_degraded_preflight: _ } => {},
    }
}

proof fn lemma_enter_end(
    command: ScheduleCommand,
    preparation: PreparationView,
    found: DiscoveryView,
    context: ScheduleContextView,
    replies: Seq<ReplyView>,
)
    requires
        prepared_for(command, preparation),
    ensures
        ({
            let phase = schedule::enter_end(preparation, found, context, replies);
            schedule_coherent(
                ScheduleView {
                    command,
                    context,
                    phase,
                    replies: schedule::kept_replies(phase is Ending, replies),
                },
            )
        }),
{
}

proof fn lemma_enter_search(
    command: ScheduleCommand,
    preparation: PreparationView,
    search: DiscovererView,
    context: ScheduleContextView,
)
    requires
        prepared_for(command, preparation),
    ensures
        schedule_coherent(
            ScheduleView {
                command,
                context,
                phase: schedule::enter_search(preparation, search, context),
                replies: Seq::empty(),
            },
        ),
{
    lemma_enter_end(
        command,
        preparation,
        discovery::search_result(search),
        context,
        Seq::empty(),
    );
}

proof fn lemma_enter_beginning(
    command: ScheduleCommand,
    context: ScheduleContextView,
    replies: Seq<ReplyView>,
)
    ensures
        ({
            let phase = schedule::enter_beginning(command, context, replies);
            schedule_coherent(
                ScheduleView {
                    command,
                    context,
                    phase,
                    replies: schedule::kept_replies(phase is Beginning, replies),
                },
            )
        }),
{
    lemma_begin_prepares(command, context, replies);
    match schedule::begin_flow(command, context, replies) {
        Flow::Done(Ok(OpeningView::Search(preparation)), _) => {
            lemma_enter_search(
                command,
                preparation,
                discovery::new_search(preparation.config.roots, preparation.config.scan_depth),
                context,
            );
        },
        _ => {},
    }
}

/// A scheduling command stands where its replies have led it, from its beginning on and after
/// every reply. Settings that are put in place are always valid.
pub proof fn law_schedules_stay_coherent(
    command: ScheduleCommand,
    context: ScheduleContextView,
    schedule: ScheduleView,
    reply: ReplyView,
)
    requires
        schedule_coherent(schedule),
    ensures
        schedule_coherent(schedule::new_schedule(command, context)),
        schedule_coherent(schedule::schedule_advance(schedule, reply)),
{
    lemma_enter_beginning(command, context, Seq::empty());
    assert(schedule::kept_replies(true, Seq::<ReplyView>::empty()) == Seq::<ReplyView>::empty());
    let replies = schedule.replies.push(reply);
    match schedule.phase {
        SchedulePhaseView::Beginning => {
            lemma_enter_beginning(schedule.command, schedule.context, replies);
        },
        SchedulePhaseView::Searching(preparation, search) => {
            lemma_enter_search(
                schedule.command,
                preparation,
                discovery::search_advance(search, reply),
                schedule.context,
            );
        },
        SchedulePhaseView::Ending(preparation, found) => {
            lemma_enter_end(
                schedule.command,
                preparation,
                found,
                schedule.context,
                replies,
            );
        },
        SchedulePhaseView::Over(_) => {},
    }
}

/// A scheduling command that is not over asks for something.
pub proof fn law_schedules_do_not_stall(schedule: ScheduleView)
    requires
        schedule_coherent(schedule),
    ensures
        schedule::schedule_request(schedule) is None <==> schedule.phase is Over,
{
}

/// A report on a schedule changes nothing.
pub proof fn law_reports_change_nothing(schedule: ScheduleView)
    requires
        schedule_coherent(schedule),
        schedule.command == ScheduleCommand::Status,
    ensures
        schedule::schedule_request(schedule) matches Some(request) ==> only_looks(request),
{
    match schedule.phase {
        SchedulePhaseView::Beginning => {
            lemma_begin_status_looks(schedule.context, schedule.replies);
        },
        SchedulePhaseView::Searching(_, search) => {
            discovery::laws::law_searches_only_look(search);
        },
        SchedulePhaseView::Ending(preparation, found) => {
            let timeout = preparation.config.fetch_timeout_seconds;
            law_preflight_only_looks(
                preparation.environment,
                timeout,
                schedule.context.search_path,
                found,
                schedule.replies,
                0,
            );
            match preflight::preflight_flow(
                preparation.environment,
                timeout,
                schedule.context.search_path,
                found,
                schedule.replies,
                0,
            ) {
                Flow::Ask(_) => {},
                Flow::Done(result, next) => {
                    lemma_lines_look(
                        false,
                        schedule::report_lines(result),
                        0,
                        schedule.replies,
                        next,
                    );
                },
            }
        },
        SchedulePhaseView::Over(_) => {},
    }
}

/// On platforms without scheduling a scheduling command asks for nothing and says so.
pub proof fn law_other_platforms_are_refused(command: ScheduleCommand, context: ScheduleContextView)
    requires
        context.platform != "macos"@,
    ensures
        schedule::new_schedule(command, context).phase == SchedulePhaseView::Over(
            Err(ScheduleErrorView::UnsupportedPlatform(context.platform)),
        ),
        schedule::schedule_request(schedule::new_schedule(command, context)) is None,
{
}

proof fn lemma_lines_warn(lines: Seq<Seq<char>>, i: int, replies: Seq<ReplyView>, at: int)
    ensures
        steps::lines_flow(true, lines, i, replies, at) matches Flow::Ask(request) ==> request is Warn,
        steps::lines_flow(true, lines, i, replies, at) matches Flow::Done(Err(error), _)
            ==> error is Write,
    decreases lines.len() - i,
{
    if i < lines.len() && at < replies.len() {
        lemma_lines_warn(lines, i + 1, replies, at + 1);
    }
}

/// A schedule that prunes is not put in place where a repository cannot be fetched, unless that
/// was allowed: there are warnings, and then an error.
pub proof fn law_degraded_pruning_is_refused(
    preparation: PreparationView,
    failures: Seq<PreflightFailureView>,
    process: u64,
    replies: Seq<ReplyView>,
    at: int,
)
    requires
        preparation.settings.mode == ScheduleMode::Prune,
        !preparation.allow_degraded,
        failures.len() > 0,
    ensures
        schedule::apply_flow(preparation, failures, process, replies, at) matches Flow::Ask(request)
            ==> request is Warn,
        schedule::apply_flow(preparation, failures, process, replies, at) matches Flow::Done(
            result,
            _,
        )
            ==> result is Err,
{
    lemma_lines_warn(schedule::failure_lines(failures), 0, replies, at);
}

proof fn lemma_lines_errors(
    warning: bool,
    lines: Seq<Seq<char>>,
    i: int,
    replies: Seq<ReplyView>,
    at: int,
)
    ensures
        steps::lines_flow(warning, lines, i, replies, at) matches Flow::Done(Err(error), _)
            ==> error is Write,
    decreases lines.len() - i,
{
    if i < lines.len() && at < replies.len() {
        lemma_lines_errors(warning, lines, i + 1, replies, at + 1);
    }
}

proof fn lemma_acts_errors(
    backend: MacOsBackendView,
    settings: Seq<u8>,
    process: u64,
    actions: Seq<ActionView>,
    i: int,
    replies: Seq<ReplyView>,
    at: int,
)
    ensures
        backend::acts_flow(backend, settings, process, actions, i, replies, at) matches Flow::Done(
            (_, Some(error)),
            _,
        ) ==> !(error is DegradedPreflight),
    decreases actions.len() - i,
{
    if i < actions.len() {
        match backend::act_flow(backend, settings, process, actions[i], replies, at) {
            Flow::Done(Ok(_), next) => {
                lemma_acts_errors(backend, settings, process, actions, i + 1, replies, next);
            },
            _ => {},
        }
    }
}

proof fn lemma_install_errors(
    backend: MacOsBackendView,
    settings: Seq<u8>,
    contents: Seq<u8>,
    agent: Seq<u8>,
    process: u64,
    replies: Seq<ReplyView>,
    at: int,
)
    ensures
        backend::install_flow(backend, settings, contents, agent, process, replies, at) matches Flow::Done(
            Err(error),
            _,
        ) ==> !(error is DegradedPreflight),
{
    match steps::read_flow(settings, replies, at) {
        Flow::Done(previous_settings, next) => match steps::read_flow(
            backend.launch_agent,
            replies,
            next,
        ) {
            Flow::Done(previous_agent, next) => match backend::loaded_flow(
                backend,
                replies,
                next,
            ) {
                Flow::Done(Ok(loaded), next) => {
                    let change = ChangeView {
                        settings: contents,
                        agent,
                        previous_settings,
                        previous_agent,
                        loaded,
                    };
                    lemma_acts_errors(
                        backend,
                        settings,
                        process,
                        backend::change_actions(change),
                        0,
                        replies,
                        next + 1,
                    );
                },
                _ => {},
            },
            _ => {},
        },
        _ => {},
    }
}

/// A schedule that only looks, or was allowed all the same, is not refused because repositories
/// cannot be fetched.
pub proof fn law_degraded_scanning_is_not_refused(
    preparation: PreparationView,
    failures: Seq<PreflightFailureView>,
    process: u64,
    replies: Seq<ReplyView>,
    at: int,
)
    requires
        preparation.settings.mode == ScheduleMode::Scan || preparation.allow_degraded,
    ensures
        schedule::apply_flow(preparation, failures, process, replies, at) matches Flow::Done(
            Err(error),
            _,
        )
            ==> !(error is DegradedPreflight),
{
    lemma_lines_warn(schedule::failure_lines(failures), 0, replies, at);
    match steps::lines_flow(true, schedule::failure_lines(failures), 0, replies, at) {
        Flow::Done(Ok(_), next) => {
            let settings = encode_utf8(launch_agent::encoded_settings(preparation.settings));
            let agent = encode_utf8(
                launch_agent::launch_agent_text(
                    preparation.settings,
                    preparation.environment,
                    preparation.paths,
                ),
            );
            lemma_install_errors(
                preparation.backend,
                preparation.paths.settings,
                settings,
                agent,
                process,
                replies,
                next,
            );
            match backend::install_flow(
                preparation.backend,
                preparation.paths.settings,
                settings,
                agent,
                process,
                replies,
                next,
            ) {
                Flow::Done(Ok(_), next) => {
                    lemma_lines_errors(
                        false,
                        seq![schedule::applied_line(preparation.goal, preparation.settings)],
                        0,
                        replies,
                        next,
                    );
                },
                _ => {},
            }
        },
        _ => {},
    }
}

} // verus!
