//! Installing a schedule as a whole, on a machine that does what it is asked to do.
use crate::cli::ScheduleCommand;
use crate::command::{ReplyView, RequestView};
use crate::discovery;
use crate::discovery::{DiscovererView, DiscoveryView, RepositoryView};
use crate::filepath;
use crate::flow::Flow;
use crate::launch_agent;
use crate::launch_agent::{ScheduleEnvironmentView, SchedulePathsView, ScheduleSettings};
use crate::schedule;
use crate::schedule::backend;
use crate::schedule::backend::{ActionView, ChangeView, Installation, MacOsBackendView};
use crate::schedule::error::ScheduleErrorView;
use crate::schedule::laws;
use crate::schedule::preflight;
use crate::schedule::preflight::PreflightFailureView;
use crate::schedule::steps;
use crate::schedule::steps::{LAUNCH_AGENT_MODE, SETTINGS_MODE};
use crate::schedule::world;
use crate::schedule::world::Machine;
use crate::schedule::{Goal, OpeningView, PreparationView, ScheduleContextView};
use crate::schedule::{SchedulePhaseView, ScheduleView};
use crate::text;
use vstd::prelude::*;
use vstd::utf8::*;

verus! {

/// Whether work that is done with the given replies is done in the same way with one more.
spec fn stays<T>(step: Flow<T>, longer: Flow<T>, replies: Seq<ReplyView>, at: int) -> bool {
    step matches Flow::Done(_, next) ==> at <= next <= replies.len() && longer == step
}

proof fn lemma_find_stays(
    name: Seq<char>,
    directories: Seq<Seq<u8>>,
    i: int,
    replies: Seq<ReplyView>,
    reply: ReplyView,
    at: int,
)
    requires
        0 <= at <= replies.len(),
    ensures
        stays(
            steps::find_flow(name, directories, i, replies, at),
            steps::find_flow(name, directories, i, replies.push(reply), at),
            replies,
            at,
        ),
    decreases directories.len() - i,
{
    if i < directories.len() && at < replies.len() {
        lemma_find_stays(name, directories, i + 1, replies, reply, at + 1);
    }
}

proof fn lemma_remotes_stay(
    git: Seq<u8>,
    repositories: Seq<RepositoryView>,
    i: int,
    ssh: bool,
    replies: Seq<ReplyView>,
    reply: ReplyView,
    at: int,
)
    requires
        0 <= at <= replies.len(),
    ensures
        stays(
            preflight::remotes_flow(git, repositories, i, ssh, replies, at),
            preflight::remotes_flow(git, repositories, i, ssh, replies.push(reply), at),
            replies,
            at,
        ),
    decreases repositories.len() - i,
{
    if i < repositories.len() && at < replies.len() {
        if let Flow::Done(Ok(output), _) = steps::output_flow(
            preflight::remotes_line(git, repositories[i].path),
            replies,
            at,
        ) {
            lemma_remotes_stay(
                git,
                repositories,
                i + 1,
                ssh || preflight::any_uses_ssh(
                    text::split_text(text::lossy_text(output.stdout), '\n'),
                ),
                replies,
                reply,
                at + 1,
            );
        }
    }
}

proof fn lemma_trials_stay(
    environment: ScheduleEnvironmentView,
    timeout: u64,
    repositories: Seq<RepositoryView>,
    i: int,
    failures: Seq<PreflightFailureView>,
    replies: Seq<ReplyView>,
    reply: ReplyView,
    at: int,
)
    requires
        0 <= at <= replies.len(),
    ensures
        stays(
            preflight::trials_flow(environment, timeout, repositories, i, failures, replies, at),
            preflight::trials_flow(
                environment,
                timeout,
                repositories,
                i,
                failures,
                replies.push(reply),
                at,
            ),
            replies,
            at,
        ),
    decreases repositories.len() - i,
{
    if i < repositories.len() && at < replies.len() {
        if let Flow::Done(result, _) = steps::output_flow(
            preflight::trial_line(environment, repositories[i].path, timeout),
            replies,
            at,
        ) {
            match preflight::trial_failure(repositories[i].path, result) {
                Err(_) => {},
                Ok(None) => lemma_trials_stay(
                    environment,
                    timeout,
                    repositories,
                    i + 1,
                    failures,
                    replies,
                    reply,
                    at + 1,
                ),
                Ok(Some(failure)) => lemma_trials_stay(
                    environment,
                    timeout,
                    repositories,
                    i + 1,
                    failures.push(failure),
                    replies,
                    reply,
                    at + 1,
                ),
            }
        }
    }
}

proof fn lemma_credentials_stay(
    environment: ScheduleEnvironmentView,
    ssh: bool,
    search_path: Option<Seq<u8>>,
    replies: Seq<ReplyView>,
    reply: ReplyView,
    at: int,
)
    requires
        0 <= at <= replies.len(),
    ensures
        stays(
            preflight::credentials_flow(environment, ssh, search_path, replies, at),
            preflight::credentials_flow(environment, ssh, search_path, replies.push(reply), at),
            replies,
            at,
        ),
{
    if at < replies.len() {
        lemma_find_stays(
            "ssh-add"@,
            steps::search_directories(search_path),
            0,
            replies,
            reply,
            at + 1,
        );
    }
}

proof fn lemma_preflight_stays(
    environment: ScheduleEnvironmentView,
    timeout: u64,
    search_path: Option<Seq<u8>>,
    found: DiscoveryView,
    replies: Seq<ReplyView>,
    reply: ReplyView,
    at: int,
)
    requires
        0 <= at <= replies.len(),
    ensures
        stays(
            preflight::preflight_flow(environment, timeout, search_path, found, replies, at),
            preflight::preflight_flow(
                environment,
                timeout,
                search_path,
                found,
                replies.push(reply),
                at,
            ),
            replies,
            at,
        ),
{
    let git = environment.programs.git;
    lemma_remotes_stay(git, found.repositories, 0, false, replies, reply, at);
    if let Flow::Done(Ok(ssh), next) = preflight::remotes_flow(
        git,
        found.repositories,
        0,
        false,
        replies,
        at,
    ) {
        lemma_credentials_stay(environment, ssh, search_path, replies, reply, next);
        if let Flow::Done(Ok(_), next) = preflight::credentials_flow(
            environment,
            ssh,
            search_path,
            replies,
            next,
        ) {
            lemma_trials_stay(
                environment,
                timeout,
                found.repositories,
                0,
                Seq::empty(),
                replies,
                reply,
                next,
            );
        }
    }
}

/// The settings file of a schedule, as it is written.
pub open spec fn settings_contents(preparation: PreparationView) -> Seq<u8> {
    encode_utf8(launch_agent::encoded_settings(preparation.settings))
}

/// The LaunchAgent of a schedule, as it is written.
pub open spec fn agent_contents(preparation: PreparationView) -> Seq<u8> {
    encode_utf8(
        launch_agent::launch_agent_text(
            preparation.settings,
            preparation.environment,
            preparation.paths,
        ),
    )
}

/// A machine on which a schedule was installed, and which told so.
pub open spec fn installed(machine: Machine, preparation: PreparationView) -> Machine {
    Machine {
        installation: Installation {
            settings: Some(settings_contents(preparation)),
            agent: Some(agent_contents(preparation)),
            loaded: true,
        },
        printed: machine.printed.push(
            schedule::applied_line(Goal::Install, preparation.settings),
        ),
        touched: machine.touched + seq![
            preparation.paths.log_directory,
            filepath::parent_path(preparation.paths.settings)->0,
            filepath::parent_path(preparation.paths.launch_agent)->0,
        ],
    }
}

/// A machine on which a schedule was put in place, and which told so in the words of the command.
pub open spec fn put_in_place(machine: Machine, preparation: PreparationView) -> Machine {
    Machine {
        printed: machine.printed.push(
            schedule::applied_line(preparation.goal, preparation.settings),
        ),
        ..installed(machine, preparation)
    }
}

/// The request to write a file of a schedule.
spec fn write_request(path: Seq<u8>, contents: Seq<u8>, mode: u32, process: u64) -> RequestView {
    RequestView::WriteFile {
        path,
        temporary: steps::temporary_path(path, filepath::parent_path(path)->0, process),
        contents,
        mode,
    }
}

/// What a command does at its end.
#[verifier::opaque]
spec fn last_piece(
    preparation: PreparationView,
    found: DiscoveryView,
    context: ScheduleContextView,
    replies: Seq<ReplyView>,
) -> Flow<Result<(), ScheduleErrorView>> {
    schedule::end_flow(preparation, found, context, replies)
}

/// A command at its end, with the given replies.
spec fn ending(
    command: ScheduleCommand,
    context: ScheduleContextView,
    preparation: PreparationView,
    found: DiscoveryView,
    replies: Seq<ReplyView>,
) -> ScheduleView {
    ScheduleView {
        command,
        context,
        phase: SchedulePhaseView::Ending(preparation, found),
        replies,
    }
}

proof fn lemma_ending_step(
    world: spec_fn(Installation, RequestView) -> ReplyView,
    command: ScheduleCommand,
    context: ScheduleContextView,
    preparation: PreparationView,
    found: DiscoveryView,
    replies: Seq<ReplyView>,
    machine: Machine,
    n: nat,
    request: RequestView,
)
    requires
        n > 0,
        last_piece(preparation, found, context, replies) == Flow::<
            Result<(), ScheduleErrorView>,
        >::Ask(request),
    ensures
        ({
            let paths = preparation.paths;
            let backend = preparation.backend;
            let longer = replies.push(world::answer(world, machine.installation, request));
            let changed = world::after(paths, backend, machine, request);
            let end = world::carried_out(
                world,
                paths,
                backend,
                ending(command, context, preparation, found, replies),
                machine,
                n,
            );
            &&& last_piece(preparation, found, context, longer) is Ask ==> end
                == world::carried_out(
                world,
                paths,
                backend,
                ending(command, context, preparation, found, longer),
                changed,
                (n - 1) as nat,
            )
            &&& last_piece(preparation, found, context, longer) matches Flow::Done(result, _)
                ==> end.0.phase == SchedulePhaseView::Over(result) && end.1 == changed
        }),
{
    reveal(last_piece);
    let paths = preparation.paths;
    let backend = preparation.backend;
    let reply = world::answer(world, machine.installation, request);
    let longer = replies.push(reply);
    let changed = world::after(paths, backend, machine, request);
    let before = ending(command, context, preparation, found, replies);
    let advanced = schedule::schedule_advance(before, reply);
    assert(schedule::schedule_request(before) == Some(request));
    if last_piece(preparation, found, context, longer) is Ask {
        assert(advanced == ending(command, context, preparation, found, longer));
    } else {
        assert(world::carried_out(world, paths, backend, advanced, changed, (n - 1) as nat) == (
            advanced,
            changed,
        ));
    }
}

/// Whether the check of the repositories succeeded with the first `base` replies: every one of them
/// can be fetched.
pub open spec fn checked(
    preparation: PreparationView,
    found: DiscoveryView,
    context: ScheduleContextView,
    replies: Seq<ReplyView>,
    base: int,
) -> bool {
    preflight::preflight_flow(
        preparation.environment,
        preparation.config.fetch_timeout_seconds,
        context.search_path,
        found,
        replies,
        0,
    ) == Flow::<Result<Seq<PreflightFailureView>, ScheduleErrorView>>::Done(
        Ok(Seq::empty()),
        base,
    )
}

/// The change that an installation makes.
spec fn change_of(preparation: PreparationView, now: Installation) -> ChangeView {
    ChangeView {
        settings: settings_contents(preparation),
        agent: agent_contents(preparation),
        previous_settings: Ok(now.settings),
        previous_agent: Ok(now.agent),
        loaded: now.loaded,
    }
}

/// The requests that an installation makes once the repositories were checked.
spec fn requests(preparation: PreparationView, process: u64, loaded: bool) -> Seq<RequestView> {
    let paths = preparation.paths;
    let backend = preparation.backend;
    seq![
        RequestView::ReadFile(paths.settings),
        RequestView::ReadFile(paths.launch_agent),
        RequestView::RunProgram(backend::print_line(backend)),
        RequestView::CreateDirectories(paths.log_directory),
        RequestView::CreateDirectories(filepath::parent_path(paths.settings)->0),
        write_request(paths.settings, settings_contents(preparation), SETTINGS_MODE, process),
    ] + (if loaded {
        seq![RequestView::RunProgram(backend::bootout_line(backend))]
    } else {
        Seq::empty()
    }) + seq![
        RequestView::CreateDirectories(filepath::parent_path(paths.launch_agent)->0),
        write_request(paths.launch_agent, agent_contents(preparation), LAUNCH_AGENT_MODE, process),
        RequestView::RunProgram(backend::bootstrap_line(backend)),
        RequestView::Print(schedule::applied_line(preparation.goal, preparation.settings)),
    ]
}

/// Whether the replies from `base` on are those of a machine that does what it is asked to do.
spec fn obeyed(now: Installation, replies: Seq<ReplyView>, base: int) -> bool {
    let k = replies.len() - base;
    let extra: int = if now.loaded {
        1
    } else {
        0
    };
    &&& 0 <= base <= replies.len() <= base + 10 + extra
    &&& k > 0 ==> replies[base] == ReplyView::File(Ok(now.settings))
    &&& k > 1 ==> replies[base + 1] == ReplyView::File(Ok(now.agent))
    &&& k > 2 ==> world::exits(replies[base + 2], now.loaded)
    &&& k > 3 ==> replies[base + 3] == ReplyView::Stored(Ok(()))
    &&& k > 4 ==> replies[base + 4] == ReplyView::Stored(Ok(()))
    &&& k > 5 ==> replies[base + 5] == ReplyView::Stored(Ok(()))
    &&& k > 6 && now.loaded ==> world::exits(replies[base + 6], true)
    &&& k > 6 + extra ==> replies[base + 6 + extra] == ReplyView::Stored(Ok(()))
    &&& k > 7 + extra ==> replies[base + 7 + extra] == ReplyView::Stored(Ok(()))
    &&& k > 8 + extra ==> world::exits(replies[base + 8 + extra], true)
    &&& k > 9 + extra ==> replies[base + 9 + extra] == ReplyView::Written(Ok(()))
}

/// Whether the files of a preparation are in order, and its backend works on them.
spec fn in_order(preparation: PreparationView) -> bool {
    let paths = preparation.paths;
    &&& preparation.goal != Goal::Report
    &&& preparation.backend.launch_agent == paths.launch_agent
    &&& preparation.backend.log_directory == paths.log_directory
    &&& paths.settings != paths.launch_agent
    &&& filepath::parent_path(paths.settings) is Some
    &&& filepath::parent_path(paths.launch_agent) is Some
}

proof fn lemma_put(
    path: Seq<u8>,
    contents: Seq<u8>,
    mode: u32,
    process: u64,
    replies: Seq<ReplyView>,
    at: int,
)
    requires
        filepath::parent_path(path) is Some,
        0 <= at <= replies.len(),
        replies.len() > at ==> replies[at] == ReplyView::Stored(Ok(())),
        replies.len() > at + 1 ==> replies[at + 1] == ReplyView::Stored(Ok(())),
    ensures
        backend::put_flow(path, Some(contents), mode, process, replies, at) == if replies.len()
            == at {
            Flow::<Result<(), ScheduleErrorView>>::Ask(
                RequestView::CreateDirectories(filepath::parent_path(path)->0),
            )
        } else if replies.len() == at + 1 {
            Flow::Ask(write_request(path, contents, mode, process))
        } else {
            Flow::Done(Ok(()), at + 2)
        },
{
}

/// The actions of an installation from number `i` on.
spec fn acts(
    preparation: PreparationView,
    process: u64,
    now: Installation,
    i: int,
    replies: Seq<ReplyView>,
    at: int,
) -> Flow<(int, Option<ScheduleErrorView>)> {
    backend::acts_flow(
        preparation.backend,
        preparation.paths.settings,
        process,
        backend::change_actions(change_of(preparation, now)),
        i,
        replies,
        at,
    )
}

proof fn lemma_loaded_acts(
    preparation: PreparationView,
    process: u64,
    now: Installation,
    replies: Seq<ReplyView>,
    base: int,
)
    requires
        in_order(preparation),
        obeyed(now, replies, base),
        now.loaded,
        replies.len() >= base + 4,
    ensures
        acts(preparation, process, now, 0, replies, base + 4) == if replies.len() < base + 10 {
            Flow::<(int, Option<ScheduleErrorView>)>::Ask(
                requests(preparation, process, true)[replies.len() - base],
            )
        } else {
            Flow::Done((4, None), base + 10)
        },
{
    let paths = preparation.paths;
    let settings = settings_contents(preparation);
    let agent = agent_contents(preparation);
    let actions = backend::change_actions(change_of(preparation, now));
    assert(actions[0] == ActionView::PutSettings(Some(settings)));
    assert(actions[1] == ActionView::Bootout);
    assert(actions[2] == ActionView::PutAgent(Some(agent)));
    assert(actions[3] == ActionView::Bootstrap);
    lemma_put(paths.settings, settings, SETTINGS_MODE, process, replies, base + 4);
    if replies.len() >= base + 6 {
        assert(acts(preparation, process, now, 0, replies, base + 4) == acts(
            preparation,
            process,
            now,
            1,
            replies,
            base + 6,
        ));
    }
    if replies.len() >= base + 7 {
        assert(acts(preparation, process, now, 1, replies, base + 6) == acts(
            preparation,
            process,
            now,
            2,
            replies,
            base + 7,
        ));
        lemma_put(paths.launch_agent, agent, LAUNCH_AGENT_MODE, process, replies, base + 7);
    }
    if replies.len() >= base + 9 {
        assert(acts(preparation, process, now, 2, replies, base + 7) == acts(
            preparation,
            process,
            now,
            3,
            replies,
            base + 9,
        ));
    }
    if replies.len() >= base + 10 {
        assert(acts(preparation, process, now, 3, replies, base + 9) == acts(
            preparation,
            process,
            now,
            4,
            replies,
            base + 10,
        ));
    }
}

proof fn lemma_idle_acts(
    preparation: PreparationView,
    process: u64,
    now: Installation,
    replies: Seq<ReplyView>,
    base: int,
)
    requires
        in_order(preparation),
        obeyed(now, replies, base),
        !now.loaded,
        replies.len() >= base + 4,
    ensures
        acts(preparation, process, now, 0, replies, base + 4) == if replies.len() < base + 9 {
            Flow::<(int, Option<ScheduleErrorView>)>::Ask(
                requests(preparation, process, false)[replies.len() - base],
            )
        } else {
            Flow::Done((3, None), base + 9)
        },
{
    let paths = preparation.paths;
    let settings = settings_contents(preparation);
    let agent = agent_contents(preparation);
    let actions = backend::change_actions(change_of(preparation, now));
    assert(actions[0] == ActionView::PutSettings(Some(settings)));
    assert(actions[1] == ActionView::PutAgent(Some(agent)));
    assert(actions[2] == ActionView::Bootstrap);
    lemma_put(paths.settings, settings, SETTINGS_MODE, process, replies, base + 4);
    if replies.len() >= base + 6 {
        assert(acts(preparation, process, now, 0, replies, base + 4) == acts(
            preparation,
            process,
            now,
            1,
            replies,
            base + 6,
        ));
        lemma_put(paths.launch_agent, agent, LAUNCH_AGENT_MODE, process, replies, base + 6);
    }
    if replies.len() >= base + 8 {
        assert(acts(preparation, process, now, 1, replies, base + 6) == acts(
            preparation,
            process,
            now,
            2,
            replies,
            base + 8,
        ));
    }
    if replies.len() >= base + 9 {
        assert(acts(preparation, process, now, 2, replies, base + 8) == acts(
            preparation,
            process,
            now,
            3,
            replies,
            base + 9,
        ));
    }
}

proof fn lemma_applying(
    preparation: PreparationView,
    found: DiscoveryView,
    context: ScheduleContextView,
    now: Installation,
    replies: Seq<ReplyView>,
    base: int,
)
    requires
        in_order(preparation),
        obeyed(now, replies, base),
        checked(preparation, found, context, replies, base),
    ensures
        ({
            let asked = requests(preparation, context.process, now.loaded);
            last_piece(preparation, found, context, replies) == if replies.len() - base
                < asked.len() {
                Flow::<Result<(), ScheduleErrorView>>::Ask(asked[replies.len() - base])
            } else {
                Flow::Done(Ok(()), base + asked.len())
            }
        }),
{
    reveal(last_piece);
    reveal_with_fuel(steps::lines_flow, 3);
    if replies.len() >= base + 4 {
        if now.loaded {
            lemma_loaded_acts(preparation, context.process, now, replies, base);
        } else {
            lemma_idle_acts(preparation, context.process, now, replies, base);
        }
    }
}

proof fn lemma_checked_longer(
    preparation: PreparationView,
    found: DiscoveryView,
    context: ScheduleContextView,
    replies: Seq<ReplyView>,
    reply: ReplyView,
    base: int,
)
    requires
        checked(preparation, found, context, replies, base),
    ensures
        checked(preparation, found, context, replies.push(reply), base),
{
    lemma_preflight_stays(
        preparation.environment,
        preparation.config.fetch_timeout_seconds,
        context.search_path,
        found,
        replies,
        reply,
        0,
    );
}

/// The machine after the first `k` requests of an installation.
spec fn worked(preparation: PreparationView, process: u64, machine: Machine, k: nat) -> Machine
    decreases k,
{
    if k == 0 {
        machine
    } else {
        world::after(
            preparation.paths,
            preparation.backend,
            worked(preparation, process, machine, (k - 1) as nat),
            requests(preparation, process, machine.installation.loaded)[k - 1],
        )
    }
}

/// One more than the requests that an idle service takes, where the service is loaded.
spec fn extra(machine: Machine) -> int {
    if machine.installation.loaded {
        1
    } else {
        0
    }
}

proof fn lemma_requests(preparation: PreparationView, process: u64)
    ensures
        requests(preparation, process, true).len() == 11,
        requests(preparation, process, false).len() == 10,
{
}

proof fn lemma_worked(preparation: PreparationView, process: u64, machine: Machine, k: nat)
    requires
        in_order(preparation),
        k <= 10 + extra(machine),
    ensures
        ({
            let now = machine.installation;
            let end = worked(preparation, process, machine, k);
            &&& end.installation.settings == if k >= 6 {
                Some(settings_contents(preparation))
            } else {
                now.settings
            }
            &&& end.installation.agent == if k >= 8 + extra(machine) {
                Some(agent_contents(preparation))
            } else {
                now.agent
            }
            &&& end.installation.loaded == if k >= 9 + extra(machine) {
                true
            } else {
                now.loaded && k < 7
            }
            &&& end.printed == if k >= 10 + extra(machine) {
                put_in_place(machine, preparation).printed
            } else {
                machine.printed
            }
            &&& end.touched == if k < 4 {
                machine.touched
            } else if k == 4 {
                machine.touched.push(preparation.paths.log_directory)
            } else if k < 7 + extra(machine) {
                machine.touched.push(preparation.paths.log_directory).push(
                    filepath::parent_path(preparation.paths.settings)->0,
                )
            } else {
                machine.touched.push(preparation.paths.log_directory).push(
                    filepath::parent_path(preparation.paths.settings)->0,
                ).push(filepath::parent_path(preparation.paths.launch_agent)->0)
            }
        }),
    decreases k,
{
    lemma_requests(preparation, process);
    world::lemma_lines(preparation.backend);
    if k > 0 {
        lemma_worked(preparation, process, machine, (k - 1) as nat);
    }
}

proof fn lemma_all_worked(preparation: PreparationView, process: u64, machine: Machine)
    requires
        in_order(preparation),
    ensures
        worked(preparation, process, machine, 0) == machine,
        worked(preparation, process, machine, (10 + extra(machine)) as nat) == put_in_place(
            machine,
            preparation,
        ),
{
    lemma_worked(preparation, process, machine, (10 + extra(machine)) as nat);
    let end = worked(preparation, process, machine, (10 + extra(machine)) as nat);
    assert(end.touched =~= put_in_place(machine, preparation).touched);
}

proof fn lemma_obeyed(
    world: spec_fn(Installation, RequestView) -> ReplyView,
    preparation: PreparationView,
    process: u64,
    machine: Machine,
    replies: Seq<ReplyView>,
    base: int,
)
    requires
        in_order(preparation),
        world::truthful(world, preparation.paths, preparation.backend),
        world::obliging(world, preparation.paths, preparation.backend),
        obeyed(machine.installation, replies, base),
        replies.len() < base + 10 + extra(machine),
    ensures
        obeyed(
            machine.installation,
            replies.push(
                world::answer(
                    world,
                    worked(
                        preparation,
                        process,
                        machine,
                        (replies.len() - base) as nat,
                    ).installation,
                    requests(preparation, process, machine.installation.loaded)[replies.len()
                        - base],
                ),
            ),
            base,
        ),
{
    let k = (replies.len() - base) as nat;
    lemma_requests(preparation, process);
    lemma_worked(preparation, process, machine, k);
    let asked = requests(preparation, process, machine.installation.loaded)[k as int];
    let reply = world::answer(
        world,
        worked(preparation, process, machine, k).installation,
        asked,
    );
    let longer = replies.push(reply);
    assert(longer[base + k] == reply);
    assert forall|j: int| base <= j < base + k implies #[trigger] longer[j] == replies[j] by {}
}

proof fn lemma_ending(
    world: spec_fn(Installation, RequestView) -> ReplyView,
    command: ScheduleCommand,
    context: ScheduleContextView,
    preparation: PreparationView,
    found: DiscoveryView,
    machine: Machine,
    replies: Seq<ReplyView>,
    base: int,
    n: nat,
)
    requires
        in_order(preparation),
        world::truthful(world, preparation.paths, preparation.backend),
        world::obliging(world, preparation.paths, preparation.backend),
        checked(preparation, found, context, replies, base),
        obeyed(machine.installation, replies, base),
        replies.len() < base + 10 + extra(machine) <= replies.len() + n,
    ensures
        ({
            let end = world::carried_out(
                world,
                preparation.paths,
                preparation.backend,
                ending(command, context, preparation, found, replies),
                worked(preparation, context.process, machine, (replies.len() - base) as nat),
                n,
            );
            end.0.phase == SchedulePhaseView::Over(Ok(())) && end.1 == worked(
                preparation,
                context.process,
                machine,
                (10 + extra(machine)) as nat,
            )
        }),
    decreases n,
{
    let process = context.process;
    let k = (replies.len() - base) as nat;
    let before = worked(preparation, process, machine, k);
    lemma_requests(preparation, process);
    let request = requests(preparation, process, machine.installation.loaded)[k as int];
    let reply = world::answer(world, before.installation, request);
    let longer = replies.push(reply);
    lemma_applying(preparation, found, context, machine.installation, replies, base);
    lemma_obeyed(world, preparation, process, machine, replies, base);
    lemma_checked_longer(preparation, found, context, replies, reply, base);
    lemma_applying(preparation, found, context, machine.installation, longer, base);
    lemma_ending_step(
        world,
        command,
        context,
        preparation,
        found,
        replies,
        before,
        n,
        request,
    );
    assert(worked(preparation, process, machine, k + 1) == world::after(
        preparation.paths,
        preparation.backend,
        before,
        request,
    ));
    if longer.len() < base + 10 + extra(machine) {
        lemma_ending(
            world,
            command,
            context,
            preparation,
            found,
            machine,
            longer,
            base,
            (n - 1) as nat,
        );
    }
}

/// The settings that an installation starts from: those of the settings file where there is one,
/// else the default ones.
pub open spec fn initial_settings(
    world: spec_fn(Installation, RequestView) -> ReplyView,
    paths: SchedulePathsView,
    now: Installation,
) -> Result<ScheduleSettings, ScheduleErrorView> {
    if now.settings is None {
        Ok(launch_agent::default_settings())
    } else {
        steps::told_settings(
            paths.settings,
            world::answer(world, now, RequestView::LoadSettings(paths.settings)),
        )
    }
}

/// Whether a preparation is one for an installation that starts on a machine.
pub open spec fn prepared_on(
    world: spec_fn(Installation, RequestView) -> ReplyView,
    paths: SchedulePathsView,
    backend: MacOsBackendView,
    now: Installation,
    preparation: PreparationView,
) -> bool {
    &&& preparation.goal == Goal::Install
    &&& preparation.paths == paths
    &&& preparation.backend == backend
    &&& initial_settings(world, paths, now) == Ok::<ScheduleSettings, ScheduleErrorView>(
        preparation.settings,
    )
}

/// Whether the first replies of an installation tell what is installed.
spec fn told_first(
    world: spec_fn(Installation, RequestView) -> ReplyView,
    paths: SchedulePathsView,
    now: Installation,
    replies: Seq<ReplyView>,
) -> bool {
    &&& replies.len() > 0 ==> replies[0] == world::answer(
        world,
        now,
        RequestView::RunProgram(backend::user_line()),
    )
    &&& replies.len() > 1 ==> replies[1] == world::answer(
        world,
        now,
        RequestView::Exists(paths.settings),
    )
    &&& replies.len() > 2 && now.settings is Some ==> replies[2] == world::answer(
        world,
        now,
        RequestView::LoadSettings(paths.settings),
    )
}

/// Whether the check of the repositories is under way, or is just over.
spec fn checking(
    preparation: PreparationView,
    found: DiscoveryView,
    context: ScheduleContextView,
    replies: Seq<ReplyView>,
) -> bool {
    preflight::preflight_flow(
        preparation.environment,
        preparation.config.fetch_timeout_seconds,
        context.search_path,
        found,
        replies,
        0,
    ) matches Flow::Done(_, next) ==> next == replies.len()
}

/// Whether an installation that started on `start` has changed nothing up to the end of the check
/// of the repositories, and works towards what it was started for.
spec fn on_its_way(
    world: spec_fn(Installation, RequestView) -> ReplyView,
    paths: SchedulePathsView,
    backend: MacOsBackendView,
    start: Machine,
    schedule: ScheduleView,
    machine: Machine,
) -> bool {
    match schedule.phase {
        SchedulePhaseView::Beginning => machine == start && told_first(
            world,
            paths,
            start.installation,
            schedule.replies,
        ),
        SchedulePhaseView::Searching(preparation, _) => machine == start && prepared_on(
            world,
            paths,
            backend,
            start.installation,
            preparation,
        ),
        SchedulePhaseView::Ending(preparation, found) => prepared_on(
            world,
            paths,
            backend,
            start.installation,
            preparation,
        ) && (checking(preparation, found, schedule.context, schedule.replies) ==> machine
            == start),
        SchedulePhaseView::Over(_) => true,
    }
}

proof fn lemma_looking_changes_nothing(
    paths: SchedulePathsView,
    backend: MacOsBackendView,
    machine: Machine,
    request: RequestView,
)
    requires
        laws::only_looks(request),
        !(request is Print),
    ensures
        world::after(paths, backend, machine, request) == machine,
{
    reveal_strlit("print");
    reveal_strlit("bootout");
    assert("print"@.len() != "bootout"@.len());
    assert(backend::bootout_line(backend).arguments[0] == "bootout"@);
    assert(backend::bootout_line(backend).arguments.len() == 2);
    assert(backend::bootstrap_line(backend).arguments.len() == 3);
    if let RequestView::RunProgram(line) = request {
        if line.arguments == seq!["-u"@] {
            assert(line.arguments.len() == 1);
        }
        if line.arguments == seq!["-l"@] {
            assert(line.arguments.len() == 1);
        }
    }
}

/// What the beginning of an installation asks for, and what it prepares.
proof fn lemma_beginning(
    world: spec_fn(Installation, RequestView) -> ReplyView,
    paths: SchedulePathsView,
    backend: MacOsBackendView,
    allow: bool,
    context: ScheduleContextView,
    now: Installation,
    replies: Seq<ReplyView>,
)
    requires
        schedule::supported(context.platform) is Ok,
        schedule::schedule_paths(context.environment) == Ok::<
            SchedulePathsView,
            ScheduleErrorView,
        >(paths),
        world::truthful(world, paths, backend),
        told_first(world, paths, now, replies),
    ensures
        ({
            let command = ScheduleCommand::Install { allow_degraded_preflight: allow };
            let piece = world::first_piece(command, context, replies);
            &&& piece matches Flow::Ask(request) ==> laws::only_looks(request) && !(request
                is Print) && told_first(
                world,
                paths,
                now,
                replies.push(world::answer(world, now, request)),
            )
            &&& piece matches Flow::Done(Ok(opening), _) ==> (opening matches OpeningView::Search(
                preparation,
            ) && prepared_on(world, paths, backend, now, preparation))
        }),
{
    let command = ScheduleCommand::Install { allow_degraded_preflight: allow };
    if replies.len() > 0 {
        assert(world::knows_user(paths, backend, replies[0]));
    }
    world::lemma_user_known(command, context, paths, backend, replies);
    laws::lemma_prepare_looks(context, replies, 2);
    laws::lemma_prepare_looks(context, replies, 3);
}

proof fn lemma_prepared(
    world: spec_fn(Installation, RequestView) -> ReplyView,
    paths: SchedulePathsView,
    backend: MacOsBackendView,
    command: ScheduleCommand,
    context: ScheduleContextView,
    preparation: PreparationView,
    search: DiscovererView,
    machine: Machine,
)
    requires
        prepared_on(world, paths, backend, machine.installation, preparation),
    ensures
        on_its_way(
            world,
            paths,
            backend,
            machine,
            ScheduleView {
                command,
                context,
                phase: schedule::enter_search(preparation, search, context),
                replies: Seq::empty(),
            },
            machine,
        ),
{
}

proof fn lemma_on_its_way(
    world: spec_fn(Installation, RequestView) -> ReplyView,
    paths: SchedulePathsView,
    backend: MacOsBackendView,
    allow: bool,
    context: ScheduleContextView,
    start: Machine,
    schedule: ScheduleView,
    machine: Machine,
    request: RequestView,
)
    requires
        schedule::supported(context.platform) is Ok,
        schedule::schedule_paths(context.environment) == Ok::<
            SchedulePathsView,
            ScheduleErrorView,
        >(paths),
        world::truthful(world, paths, backend),
        schedule.command == (ScheduleCommand::Install { allow_degraded_preflight: allow }),
        schedule.context == context,
        on_its_way(world, paths, backend, start, schedule, machine),
        schedule::schedule_request(schedule) == Some(request),
    ensures
        on_its_way(
            world,
            paths,
            backend,
            start,
            schedule::schedule_advance(
                schedule,
                world::answer(world, machine.installation, request),
            ),
            world::after(paths, backend, machine, request),
        ),
{
    let reply = world::answer(world, machine.installation, request);
    let replies = schedule.replies.push(reply);
    match schedule.phase {
        SchedulePhaseView::Beginning => {
            reveal(world::first_piece);
            lemma_beginning(
                world,
                paths,
                backend,
                allow,
                context,
                start.installation,
                schedule.replies,
            );
            lemma_looking_changes_nothing(paths, backend, machine, request);
            lemma_beginning(
                world,
                paths,
                backend,
                allow,
                context,
                start.installation,
                replies,
            );
            if let Flow::Done(Ok(OpeningView::Search(preparation)), _) = schedule::begin_flow(
                schedule.command,
                context,
                replies,
            ) {
                lemma_prepared(
                    world,
                    paths,
                    backend,
                    schedule.command,
                    context,
                    preparation,
                    discovery::new_search(preparation.config.roots, preparation.config.scan_depth),
                    machine,
                );
            }
        },
        SchedulePhaseView::Searching(preparation, search) => {
            discovery::laws::law_searches_only_look(search);
            lemma_looking_changes_nothing(paths, backend, machine, request);
            lemma_prepared(
                world,
                paths,
                backend,
                schedule.command,
                context,
                preparation,
                discovery::search_advance(search, reply),
                machine,
            );
        },
        SchedulePhaseView::Ending(preparation, found) => {
            lemma_preflight_stays(
                preparation.environment,
                preparation.config.fetch_timeout_seconds,
                context.search_path,
                found,
                schedule.replies,
                reply,
                0,
            );
            laws::law_preflight_only_looks(
                preparation.environment,
                preparation.config.fetch_timeout_seconds,
                context.search_path,
                found,
                schedule.replies,
                0,
            );
            if preflight::preflight_flow(
                preparation.environment,
                preparation.config.fetch_timeout_seconds,
                context.search_path,
                found,
                schedule.replies,
                0,
            ) is Ask {
                lemma_looking_changes_nothing(paths, backend, machine, request);
            }
        },
        SchedulePhaseView::Over(_) => {},
    }
}

proof fn lemma_carried_out(
    world: spec_fn(Installation, RequestView) -> ReplyView,
    paths: SchedulePathsView,
    backend: MacOsBackendView,
    allow: bool,
    context: ScheduleContextView,
    start: Machine,
    schedule: ScheduleView,
    machine: Machine,
    n: nat,
)
    requires
        schedule::supported(context.platform) is Ok,
        schedule::schedule_paths(context.environment) == Ok::<
            SchedulePathsView,
            ScheduleErrorView,
        >(paths),
        world::truthful(world, paths, backend),
        schedule.command == (ScheduleCommand::Install { allow_degraded_preflight: allow }),
        schedule.context == context,
        on_its_way(world, paths, backend, start, schedule, machine),
    ensures
        ({
            let end = world::carried_out(world, paths, backend, schedule, machine, n);
            &&& end.0.command == schedule.command
            &&& end.0.context == context
            &&& on_its_way(world, paths, backend, start, end.0, end.1)
        }),
    decreases n,
{
    if n > 0 {
        if let Some(request) = schedule::schedule_request(schedule) {
            lemma_on_its_way(
                world,
                paths,
                backend,
                allow,
                context,
                start,
                schedule,
                machine,
                request,
            );
            lemma_carried_out(
                world,
                paths,
                backend,
                allow,
                context,
                start,
                schedule::schedule_advance(
                    schedule,
                    world::answer(world, machine.installation, request),
                ),
                world::after(paths, backend, machine, request),
                (n - 1) as nat,
            );
        }
    }
}

proof fn lemma_carried_on(
    world: spec_fn(Installation, RequestView) -> ReplyView,
    paths: SchedulePathsView,
    backend: MacOsBackendView,
    schedule: ScheduleView,
    machine: Machine,
    n: nat,
    more: nat,
)
    ensures
        ({
            let middle = world::carried_out(world, paths, backend, schedule, machine, n);
            world::carried_out(world, paths, backend, schedule, machine, n + more)
                == world::carried_out(world, paths, backend, middle.0, middle.1, more)
        }),
    decreases n,
{
    if n > 0 {
        if let Some(request) = schedule::schedule_request(schedule) {
            lemma_carried_on(
                world,
                paths,
                backend,
                schedule::schedule_advance(
                    schedule,
                    world::answer(world, machine.installation, request),
                ),
                world::after(paths, backend, machine, request),
                (n - 1) as nat,
                more,
            );
        }
    }
}

/// The state of an installation that started on a machine, and the machine, after at most `n`
/// requests.
pub open spec fn installing(
    world: spec_fn(Installation, RequestView) -> ReplyView,
    paths: SchedulePathsView,
    backend: MacOsBackendView,
    allow: bool,
    context: ScheduleContextView,
    machine: Machine,
    n: nat,
) -> (ScheduleView, Machine) {
    world::carried_out(
        world,
        paths,
        backend,
        schedule::new_schedule(
            ScheduleCommand::Install { allow_degraded_preflight: allow },
            context,
        ),
        machine,
        n,
    )
}

/// Installing succeeds on a machine that does what it is asked to do, once what a run needs was
/// found and every repository can be fetched, in eleven further requests at most. Then both files
/// are there, with the default settings where there was no settings file before and with the kept
/// ones where there was a valid one, the service is loaded, and one line tells the mode and the
/// interval. Up to then nothing was changed and nothing told.
pub proof fn law_installing_succeeds(
    world: spec_fn(Installation, RequestView) -> ReplyView,
    paths: SchedulePathsView,
    backend: MacOsBackendView,
    allow: bool,
    context: ScheduleContextView,
    machine: Machine,
    n: nat,
    preparation: PreparationView,
    found: DiscoveryView,
)
    requires
        schedule::supported(context.platform) is Ok,
        schedule::schedule_paths(context.environment) == Ok::<
            SchedulePathsView,
            ScheduleErrorView,
        >(paths),
        world::truthful(world, paths, backend),
        world::obliging(world, paths, backend),
        ({
            let (schedule, _) = installing(world, paths, backend, allow, context, machine, n);
            &&& schedule.phase == SchedulePhaseView::Ending(preparation, found)
            &&& checked(
                preparation,
                found,
                context,
                schedule.replies,
                schedule.replies.len() as int,
            )
        }),
    ensures
        installing(world, paths, backend, allow, context, machine, n).1 == machine,
        preparation.paths == paths,
        machine.installation.settings is None ==> preparation.settings.mode is Scan
            && preparation.settings.interval_seconds == 1800,
        machine.installation.settings is Some ==> steps::told_settings(
            paths.settings,
            world::answer(
                world,
                machine.installation,
                RequestView::LoadSettings(paths.settings),
            ),
        ) == Ok::<ScheduleSettings, ScheduleErrorView>(preparation.settings),
        installing(world, paths, backend, allow, context, machine, n + 11).0.phase
            == SchedulePhaseView::Over(Ok(())),
        installing(world, paths, backend, allow, context, machine, n + 11).1 == installed(
            machine,
            preparation,
        ),
{
    let command = ScheduleCommand::Install { allow_degraded_preflight: allow };
    let first = schedule::new_schedule(command, context);
    world::lemma_first(command, context, paths);
    lemma_carried_out(world, paths, backend, allow, context, machine, first, machine, n);
    let (schedule, now) = world::carried_out(world, paths, backend, first, machine, n);
    assert(schedule == ending(command, context, preparation, found, schedule.replies));
    assert(now == machine);
    lemma_knows_files(world, paths, backend, context, machine.installation);
    let base = schedule.replies.len() as int;
    lemma_ending(
        world,
        command,
        context,
        preparation,
        found,
        machine,
        schedule.replies,
        base,
        11,
    );
    lemma_all_worked(preparation, context.process, machine);
    assert(put_in_place(machine, preparation) == installed(machine, preparation));
    lemma_carried_on(world, paths, backend, first, machine, n, 11);
}

proof fn lemma_knows_files(
    world: spec_fn(Installation, RequestView) -> ReplyView,
    paths: SchedulePathsView,
    backend: MacOsBackendView,
    context: ScheduleContextView,
    now: Installation,
)
    requires
        schedule::supported(context.platform) is Ok,
        schedule::schedule_paths(context.environment) == Ok::<
            SchedulePathsView,
            ScheduleErrorView,
        >(paths),
        world::truthful(world, paths, backend),
    ensures
        backend.launch_agent == paths.launch_agent,
        backend.log_directory == paths.log_directory,
        paths.settings != paths.launch_agent,
        filepath::parent_path(paths.settings) is Some,
        filepath::parent_path(paths.launch_agent) is Some,
{
    world::lemma_files(context, paths);
    let replies = seq![
        world::answer(world, now, RequestView::RunProgram(backend::user_line())),
    ];
    assert(world::knows_user(paths, backend, replies[0]));
    world::lemma_user_known(ScheduleCommand::Uninstall, context, paths, backend, replies);
}

/// Installing once more succeeds too and leaves the same two files and a loaded service, where the
/// settings file is read back as it was written and the run needs what it needed before. It tells
/// the same line.
pub proof fn law_installing_twice_succeeds(
    world: spec_fn(Installation, RequestView) -> ReplyView,
    paths: SchedulePathsView,
    backend: MacOsBackendView,
    allow: bool,
    context: ScheduleContextView,
    machine: Machine,
    before: PreparationView,
    n: nat,
    preparation: PreparationView,
    found: DiscoveryView,
)
    requires
        schedule::supported(context.platform) is Ok,
        schedule::schedule_paths(context.environment) == Ok::<
            SchedulePathsView,
            ScheduleErrorView,
        >(paths),
        world::truthful(world, paths, backend),
        world::obliging(world, paths, backend),
        before.paths == paths,
        before.environment == preparation.environment,
        steps::told_settings(
            paths.settings,
            world::answer(
                world,
                installed(machine, before).installation,
                RequestView::LoadSettings(paths.settings),
            ),
        ) == Ok::<ScheduleSettings, ScheduleErrorView>(before.settings),
        ({
            let (schedule, _) = installing(
                world,
                paths,
                backend,
                allow,
                context,
                installed(machine, before),
                n,
            );
            &&& schedule.phase == SchedulePhaseView::Ending(preparation, found)
            &&& checked(
                preparation,
                found,
                context,
                schedule.replies,
                schedule.replies.len() as int,
            )
        }),
    ensures
        ({
            let first = installed(machine, before);
            let (schedule, end) = installing(
                world,
                paths,
                backend,
                allow,
                context,
                first,
                n + 11,
            );
            &&& schedule.phase == SchedulePhaseView::Over(Ok(()))
            &&& end.installation == first.installation
            &&& end.printed == first.printed.push(first.printed.last())
        }),
{
    law_installing_succeeds(
        world,
        paths,
        backend,
        allow,
        context,
        installed(machine, before),
        n,
        preparation,
        found,
    );
}

/// An edit takes effect as an installation does: on a machine that does what it is asked to do, once
/// every repository can be fetched, both files hold the edited settings, the service is loaded, and
/// one line tells what was changed.
pub proof fn law_edits_take_effect(
    world: spec_fn(Installation, RequestView) -> ReplyView,
    context: ScheduleContextView,
    machine: Machine,
    schedule: ScheduleView,
    preparation: PreparationView,
    found: DiscoveryView,
)
    requires
        schedule::schedule_paths(context.environment) == Ok::<
            SchedulePathsView,
            ScheduleErrorView,
        >(preparation.paths),
        preparation.goal == Goal::Update,
        world::truthful(world, preparation.paths, preparation.backend),
        world::obliging(world, preparation.paths, preparation.backend),
        schedule::supported(context.platform) is Ok,
        schedule.context == context,
        schedule.phase == SchedulePhaseView::Ending(preparation, found),
        checked(preparation, found, context, schedule.replies, schedule.replies.len() as int),
    ensures
        ({
            let (end, after) = world::carried_out(
                world,
                preparation.paths,
                preparation.backend,
                schedule,
                machine,
                11,
            );
            &&& end.phase == SchedulePhaseView::Over(Ok(()))
            &&& after.installation == (Installation {
                settings: Some(
                    encode_utf8(launch_agent::encoded_settings(preparation.settings)),
                ),
                agent: Some(
                    encode_utf8(
                        launch_agent::launch_agent_text(
                            preparation.settings,
                            preparation.environment,
                            preparation.paths,
                        ),
                    ),
                ),
                loaded: true,
            })
            &&& after.printed == machine.printed.push(
                "updated org.nixos.lop; mode="@ + launch_agent::mode_label(
                    preparation.settings.mode,
                ) + ", interval_seconds="@ + text::decimal_text(
                    preparation.settings.interval_seconds as nat,
                ),
            )
        }),
{
    lemma_updating(world, context, machine, schedule, preparation, found);
    lemma_updated_line(preparation.settings);
}

proof fn lemma_updated_line(settings: ScheduleSettings)
    ensures
        schedule::applied_line(Goal::Update, settings) == "updated org.nixos.lop; mode="@
            + launch_agent::mode_label(settings.mode) + ", interval_seconds="@
            + text::decimal_text(settings.interval_seconds as nat),
{
    reveal_strlit("updated ");
    reveal_strlit("org.nixos.lop");
    reveal_strlit("; mode=");
    reveal_strlit("updated org.nixos.lop; mode=");
    assert("updated "@ + "org.nixos.lop"@ + "; mode="@ =~= "updated org.nixos.lop; mode="@);
}

proof fn lemma_updating(
    world: spec_fn(Installation, RequestView) -> ReplyView,
    context: ScheduleContextView,
    machine: Machine,
    schedule: ScheduleView,
    preparation: PreparationView,
    found: DiscoveryView,
)
    requires
        schedule::schedule_paths(context.environment) == Ok::<
            SchedulePathsView,
            ScheduleErrorView,
        >(preparation.paths),
        preparation.goal == Goal::Update,
        world::truthful(world, preparation.paths, preparation.backend),
        world::obliging(world, preparation.paths, preparation.backend),
        schedule::supported(context.platform) is Ok,
        schedule.context == context,
        schedule.phase == SchedulePhaseView::Ending(preparation, found),
        checked(preparation, found, context, schedule.replies, schedule.replies.len() as int),
    ensures
        ({
            let (end, after) = world::carried_out(
                world,
                preparation.paths,
                preparation.backend,
                schedule,
                machine,
                11,
            );
            end.phase == SchedulePhaseView::Over(Ok(())) && after == put_in_place(
                machine,
                preparation,
            )
        }),
{
    let paths = preparation.paths;
    let backend = preparation.backend;
    let command = schedule.command;
    let replies = schedule.replies;
    let base = replies.len() as int;
    lemma_knows_files(world, paths, backend, context, machine.installation);
    assert(in_order(preparation));
    lemma_ending(world, command, context, preparation, found, machine, replies, base, 11);
    lemma_all_worked(preparation, context.process, machine);
    assert(schedule == ending(command, context, preparation, found, replies));
}

} // verus!
