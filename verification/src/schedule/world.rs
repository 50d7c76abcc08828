//! Whole scheduling commands, on a machine that does what it is asked to do.
use crate::cli::ScheduleCommand;
use crate::command;
use crate::command::{CommandResultView, PathFailureKind, ReplyView, RequestView};
use crate::filepath;
use crate::flow::Flow;
use crate::launch_agent::{LABEL, SchedulePathsView};
use crate::schedule;
use crate::schedule::backend;
use crate::schedule::backend::{Installation, MacOsBackendView};
use crate::schedule::error::ScheduleErrorView;
use crate::schedule::steps;
use crate::schedule::{OpeningView, ScheduleContextView, SchedulePhaseView, ScheduleView};
use vstd::prelude::*;
use vstd::utf8::*;

verus! {

/// A machine: what is installed on it, the lines that were printed on it, and the other paths that
/// were created, written or removed on it, in order.
pub struct Machine {
    pub installation: Installation,
    pub printed: Seq<Seq<char>>,
    pub touched: Seq<Seq<u8>>,
}

/// The reply to a request, in a world that answers every request by what is installed.
pub open spec fn answer(
    world: spec_fn(Installation, RequestView) -> ReplyView,
    installation: Installation,
    request: RequestView,
) -> ReplyView {
    world(installation, request)
}

/// Whether a reply tells that a program ended, with success or not.
pub open spec fn exits(reply: ReplyView, success: bool) -> bool {
    command::command_result(reply) matches CommandResultView::Exited { code, .. }
        && command::succeeded(code) == success
}

/// Whether a world tells truly what is installed, for the files of a schedule and its service.
pub open spec fn truthful(
    world: spec_fn(Installation, RequestView) -> ReplyView,
    paths: SchedulePathsView,
    backend: MacOsBackendView,
) -> bool {
    &&& forall|now: Installation|
        backend::system_flow(
            paths,
            seq![#[trigger] answer(world, now, RequestView::RunProgram(backend::user_line()))],
            0,
        ) == Flow::<Result<MacOsBackendView, ScheduleErrorView>>::Done(Ok(backend), 1)
    &&& forall|now: Installation|
        (#[trigger] answer(world, now, RequestView::Exists(paths.settings))) == ReplyView::Exists(
            now.settings is Some,
        )
    &&& forall|now: Installation|
        (#[trigger] answer(world, now, RequestView::Exists(paths.launch_agent)))
            == ReplyView::Exists(now.agent is Some)
    &&& forall|now: Installation|
        (#[trigger] answer(world, now, RequestView::ReadFile(paths.settings))) == ReplyView::File(
            Ok(now.settings),
        )
    &&& forall|now: Installation|
        (#[trigger] answer(world, now, RequestView::ReadFile(paths.launch_agent)))
            == ReplyView::File(Ok(now.agent))
    &&& forall|now: Installation|
        exits(
            #[trigger] answer(world, now, RequestView::RunProgram(backend::print_line(backend))),
            now.loaded,
        )
}

/// Whether a world does what it is asked to do: files are written and removed, lines are printed,
/// a service that is loaded is booted out, and one that is not, and has its LaunchAgent, is
/// bootstrapped.
pub open spec fn obliging(
    world: spec_fn(Installation, RequestView) -> ReplyView,
    paths: SchedulePathsView,
    backend: MacOsBackendView,
) -> bool {
    &&& forall|now: Installation, path: Seq<u8>|
        (#[trigger] answer(world, now, RequestView::CreateDirectories(path))) == ReplyView::Stored(
            Ok(()),
        )
    &&& forall|now: Installation, path: Seq<u8>, temporary: Seq<u8>, contents: Seq<u8>, mode: u32|
        (#[trigger] answer(
            world,
            now,
            RequestView::WriteFile { path, temporary, contents, mode },
        )) == ReplyView::Stored(Ok(()))
    &&& forall|now: Installation, path: Seq<u8>|
        (#[trigger] answer(world, now, RequestView::RemoveFile(path))) matches ReplyView::Removed(
            result,
        ) && (result matches Err(failure) ==> failure.kind == PathFailureKind::NotFound)
    &&& forall|now: Installation, line: Seq<char>|
        (#[trigger] answer(world, now, RequestView::Print(line))) == ReplyView::Written(Ok(()))
    &&& forall|now: Installation|
        now.loaded ==> exits(
            #[trigger] answer(world, now, RequestView::RunProgram(backend::bootout_line(backend))),
            true,
        )
    &&& forall|now: Installation|
        !now.loaded && now.agent is Some ==> exits(
            #[trigger] answer(
                world,
                now,
                RequestView::RunProgram(backend::bootstrap_line(backend)),
            ),
            true,
        )
}

/// The machine after it did what it was asked to do.
pub open spec fn after(
    paths: SchedulePathsView,
    backend: MacOsBackendView,
    machine: Machine,
    request: RequestView,
) -> Machine {
    let now = machine.installation;
    match request {
        RequestView::WriteFile { path, contents, .. } => if path == paths.settings {
            Machine {
                installation: Installation { settings: Some(contents), ..now },
                ..machine
            }
        } else if path == paths.launch_agent {
            Machine { installation: Installation { agent: Some(contents), ..now }, ..machine }
        } else {
            Machine { touched: machine.touched.push(path), ..machine }
        },
        RequestView::RemoveFile(path) => if path == paths.settings {
            Machine { installation: Installation { settings: None, ..now }, ..machine }
        } else if path == paths.launch_agent {
            Machine { installation: Installation { agent: None, ..now }, ..machine }
        } else {
            Machine { touched: machine.touched.push(path), ..machine }
        },
        RequestView::CreateDirectories(path) => Machine {
            touched: machine.touched.push(path),
            ..machine
        },
        RequestView::RunProgram(line) => if line == backend::bootout_line(backend) {
            Machine { installation: Installation { loaded: false, ..now }, ..machine }
        } else if line == backend::bootstrap_line(backend) {
            Machine { installation: Installation { loaded: true, ..now }, ..machine }
        } else {
            machine
        },
        RequestView::Print(line) => Machine { printed: machine.printed.push(line), ..machine },
        _ => machine,
    }
}

/// A scheduling command, and the machine that it runs on, after at most `n` of its requests were
/// answered and carried out.
pub open spec fn carried_out(
    world: spec_fn(Installation, RequestView) -> ReplyView,
    paths: SchedulePathsView,
    backend: MacOsBackendView,
    schedule: ScheduleView,
    machine: Machine,
    n: nat,
) -> (ScheduleView, Machine)
    decreases n,
{
    if n == 0 {
        (schedule, machine)
    } else {
        match schedule::schedule_request(schedule) {
            None => (schedule, machine),
            Some(request) => carried_out(
                world,
                paths,
                backend,
                schedule::schedule_advance(
                    schedule,
                    answer(world, machine.installation, request),
                ),
                after(paths, backend, machine, request),
                (n - 1) as nat,
            ),
        }
    }
}

/// A command at its beginning, with the given replies.
pub open spec fn begun(
    command: ScheduleCommand,
    context: ScheduleContextView,
    replies: Seq<ReplyView>,
) -> ScheduleView {
    ScheduleView { command, context, phase: SchedulePhaseView::Beginning, replies }
}

/// What a command does at its beginning.
#[verifier::opaque]
pub open spec fn first_piece(
    command: ScheduleCommand,
    context: ScheduleContextView,
    replies: Seq<ReplyView>,
) -> Flow<Result<OpeningView, ScheduleErrorView>> {
    schedule::begin_flow(command, context, replies)
}

proof fn lemma_begun_step(
    world: spec_fn(Installation, RequestView) -> ReplyView,
    paths: SchedulePathsView,
    backend: MacOsBackendView,
    command: ScheduleCommand,
    context: ScheduleContextView,
    replies: Seq<ReplyView>,
    machine: Machine,
    n: nat,
    request: RequestView,
)
    requires
        n > 0,
        first_piece(command, context, replies) == Flow::<
            Result<OpeningView, ScheduleErrorView>,
        >::Ask(request),
    ensures
        ({
            let longer = replies.push(answer(world, machine.installation, request));
            let changed = after(paths, backend, machine, request);
            let end = carried_out(
                world,
                paths,
                backend,
                begun(command, context, replies),
                machine,
                n,
            );
            &&& first_piece(command, context, longer) is Ask ==> end == carried_out(
                world,
                paths,
                backend,
                begun(command, context, longer),
                changed,
                (n - 1) as nat,
            )
            &&& first_piece(command, context, longer) matches Flow::Done(
                Ok(OpeningView::Finished),
                _,
            ) ==> end.0.phase == SchedulePhaseView::Over(Ok(())) && end.1 == changed
        }),
{
    reveal(first_piece);
    let longer = replies.push(answer(world, machine.installation, request));
    let changed = after(paths, backend, machine, request);
    let advanced = schedule::schedule_advance(
        begun(command, context, replies),
        answer(world, machine.installation, request),
    );
    assert(schedule::schedule_request(begun(command, context, replies)) == Some(request));
    if let Flow::Done(Ok(OpeningView::Finished), _) = first_piece(
        command,
        context,
        longer,
    ) {
        assert(carried_out(world, paths, backend, advanced, changed, (n - 1) as nat) == (
            advanced,
            changed,
        ));
    } else if first_piece(command, context, longer) is Ask {
        assert(advanced == begun(command, context, longer));
    }
}

/// The names of files are told apart by their ends.
proof fn lemma_ends()
    ensures
        encode_utf8("lop/schedule.toml"@).len() == 17,
        encode_utf8("lop/schedule.toml"@).last() == 'l' as u8,
        encode_utf8("lop/schedule.toml"@)[0] == 'l' as u8,
        encode_utf8("Library/LaunchAgents/org.nixos.lop.plist"@).len() == 40,
        encode_utf8("Library/LaunchAgents/org.nixos.lop.plist"@).last() == 't' as u8,
        encode_utf8("Library/LaunchAgents/org.nixos.lop.plist"@)[0] == 'L' as u8,
{
    reveal_strlit("lop/schedule.toml");
    reveal_strlit("Library/LaunchAgents/org.nixos.lop.plist");
    is_ascii_chars_encode_utf8("lop/schedule.toml"@);
    is_ascii_chars_encode_utf8("Library/LaunchAgents/org.nixos.lop.plist"@);
    assert("lop/schedule.toml"@[0] == 'l');
    assert("lop/schedule.toml"@[16] == 'l');
    assert("Library/LaunchAgents/org.nixos.lop.plist"@[0] == 'L');
    assert("Library/LaunchAgents/org.nixos.lop.plist"@[39] == 't');
}

proof fn lemma_parent(path: Seq<u8>)
    requires
        path.len() >= 2,
        path.last() != filepath::SEPARATOR,
        path.last() != filepath::DOT,
    ensures
        filepath::parent_path(path) is Some,
{
    let start = filepath::body_start(path);
    let piece = filepath::last_piece(path, start);
    lemma_last_piece(path, start);
    assert(path.skip(piece).last() == path.last());
    assert(path.skip(piece) != seq![filepath::DOT]) by {
        assert(seq![filepath::DOT].last() == filepath::DOT);
    }
    assert(filepath::trim_path(path, start) == path);
}

proof fn lemma_last_piece(path: Seq<u8>, start: int)
    requires
        0 <= start,
    ensures
        start < path.len() ==> start <= filepath::last_piece(path, start) <= path.len(),
        start < path.len() && path.last() != filepath::SEPARATOR ==> filepath::last_piece(
            path,
            start,
        ) < path.len(),
        path.len() <= start ==> filepath::last_piece(path, start) == start,
    decreases path.len(),
{
    if path.len() > start && path.last() != filepath::SEPARATOR {
        lemma_last_piece(path.drop_last(), start);
    }
}

/// The files of a schedule lie in directories, and are two.
pub(crate) proof fn lemma_files(context: ScheduleContextView, paths: SchedulePathsView)
    requires
        schedule::schedule_paths(context.environment) == Ok::<
            SchedulePathsView,
            ScheduleErrorView,
        >(paths),
    ensures
        paths.settings != paths.launch_agent,
        filepath::parent_path(paths.settings) is Some,
        filepath::parent_path(paths.launch_agent) is Some,
{
    lemma_ends();
    assert(paths.settings.last() == 'l' as u8);
    assert(paths.launch_agent.last() == 't' as u8);
    lemma_parent(paths.settings);
    lemma_parent(paths.launch_agent);
}

/// The commands that are run on the machine are told apart by their arguments.
pub(crate) proof fn lemma_lines(backend: MacOsBackendView)
    ensures
        backend::user_line() != backend::bootout_line(backend),
        backend::user_line() != backend::bootstrap_line(backend),
        backend::print_line(backend) != backend::bootout_line(backend),
        backend::print_line(backend) != backend::bootstrap_line(backend),
        backend::bootout_line(backend) != backend::bootstrap_line(backend),
{
    reveal_strlit("print");
    reveal_strlit("bootout");
    assert("print"@.len() != "bootout"@.len());
    assert(backend::user_line().arguments.len() == 1);
    assert(backend::print_line(backend).arguments[0] == "print"@);
    assert(backend::print_line(backend).arguments.len() == 2);
    assert(backend::bootout_line(backend).arguments[0] == "bootout"@);
    assert(backend::bootout_line(backend).arguments.len() == 2);
    assert(backend::bootstrap_line(backend).arguments.len() == 3);
}

/// A machine from which a schedule was uninstalled, and which told so.
pub open spec fn uninstalled(machine: Machine) -> Machine {
    let before = machine.installation;
    Machine {
        installation: Installation {
            settings: None,
            agent: None,
            loaded: before.loaded && before.agent is None,
        },
        printed: machine.printed.push(
            schedule::uninstalled_line(before.agent is Some || before.settings is Some),
        ),
        touched: machine.touched,
    }
}

/// Whether a reply tells that a file is gone.
spec fn is_gone(reply: ReplyView) -> bool {
    reply matches ReplyView::Removed(result) && (result matches Err(failure) ==> failure.kind
        == PathFailureKind::NotFound)
}

/// Whether the first reply tells the user for whom the backend works.
pub open spec fn knows_user(
    paths: SchedulePathsView,
    backend: MacOsBackendView,
    reply: ReplyView,
) -> bool {
    backend::system_flow(paths, seq![reply], 0) == Flow::<
        Result<MacOsBackendView, ScheduleErrorView>,
    >::Done(Ok(backend), 1)
}

pub(crate) proof fn lemma_user_known(
    command: ScheduleCommand,
    context: ScheduleContextView,
    paths: SchedulePathsView,
    backend: MacOsBackendView,
    replies: Seq<ReplyView>,
)
    requires
        schedule::supported(context.platform) is Ok,
        schedule::schedule_paths(context.environment) == Ok::<
            SchedulePathsView,
            ScheduleErrorView,
        >(paths),
    ensures
        replies.len() == 0 ==> first_piece(command, context, replies) == Flow::<
            Result<OpeningView, ScheduleErrorView>,
        >::Ask(RequestView::RunProgram(backend::user_line())),
        replies.len() > 0 && knows_user(paths, backend, replies[0]) ==> first_piece(
            command,
            context,
            replies,
        ) == schedule::command_flow(command, context, paths, backend, replies, 1)
            && backend.launch_agent == paths.launch_agent && backend.log_directory
            == paths.log_directory,
{
    reveal(first_piece);
    if replies.len() > 0 {
        assert(seq![replies[0]][0] == replies[0]);
    }
}

pub(crate) proof fn lemma_first(
    command: ScheduleCommand,
    context: ScheduleContextView,
    paths: SchedulePathsView,
)
    requires
        schedule::supported(context.platform) is Ok,
        schedule::schedule_paths(context.environment) == Ok::<
            SchedulePathsView,
            ScheduleErrorView,
        >(paths),
    ensures
        schedule::new_schedule(command, context) == begun(command, context, Seq::empty()),
{
}

proof fn lemma_without_agent(
    context: ScheduleContextView,
    paths: SchedulePathsView,
    backend: MacOsBackendView,
    replies: Seq<ReplyView>,
)
    requires
        schedule::supported(context.platform) is Ok,
        schedule::schedule_paths(context.environment) == Ok::<
            SchedulePathsView,
            ScheduleErrorView,
        >(paths),
        replies.len() > 0 ==> knows_user(paths, backend, replies[0]),
        replies.len() > 1 ==> replies[1] == ReplyView::Exists(false),
        replies.len() > 2 ==> replies[2] is Exists,
        replies.len() > 3 ==> is_gone(replies[3]),
        replies.len() > 4 ==> replies[4] == ReplyView::Written(Ok(())),
        replies.len() <= 5,
    ensures
        first_piece(ScheduleCommand::Uninstall, context, replies) == if replies.len() == 0 {
            Flow::<Result<OpeningView, ScheduleErrorView>>::Ask(
                RequestView::RunProgram(backend::user_line()),
            )
        } else if replies.len() == 1 {
            Flow::Ask(RequestView::Exists(paths.launch_agent))
        } else if replies.len() == 2 {
            Flow::Ask(RequestView::Exists(paths.settings))
        } else if replies.len() == 3 {
            Flow::Ask(RequestView::RemoveFile(paths.settings))
        } else if replies.len() == 4 {
            Flow::Ask(
                RequestView::Print(
                    schedule::uninstalled_line(replies[2] == ReplyView::Exists(true)),
                ),
            )
        } else {
            Flow::Done(Ok(OpeningView::Finished), 5)
        },
{
    reveal_with_fuel(backend::acts_flow, 3);
    reveal_with_fuel(steps::lines_flow, 3);
    lemma_user_known(ScheduleCommand::Uninstall, context, paths, backend, replies);
    assert(backend::uninstall_actions(false, false) =~= seq![
        backend::ActionView::PutSettings(None),
    ]);
}

proof fn lemma_uninstalling_without_agent(
    world: spec_fn(Installation, RequestView) -> ReplyView,
    paths: SchedulePathsView,
    backend: MacOsBackendView,
    context: ScheduleContextView,
    machine: Machine,
)
    requires
        schedule::supported(context.platform) is Ok,
        schedule::schedule_paths(context.environment) == Ok::<
            SchedulePathsView,
            ScheduleErrorView,
        >(paths),
        truthful(world, paths, backend),
        obliging(world, paths, backend),
        machine.installation.agent is None,
    ensures
        ({
            let end = carried_out(
                world,
                paths,
                backend,
                begun(ScheduleCommand::Uninstall, context, Seq::empty()),
                machine,
                7,
            );
            end.0.phase == SchedulePhaseView::Over(Ok(())) && end.1 == uninstalled(machine)
        }),
{
    lemma_files(context, paths);
    lemma_lines(backend);
    let command = ScheduleCommand::Uninstall;
    let now = machine.installation;
    let gone = Installation { settings: None, ..now };
    let line = schedule::uninstalled_line(now.settings is Some);
    let removed = Machine { installation: gone, ..machine };
    let asked0 = RequestView::RunProgram(backend::user_line());
    let asked1 = RequestView::Exists(paths.launch_agent);
    let asked2 = RequestView::Exists(paths.settings);
    let asked3 = RequestView::RemoveFile(paths.settings);
    let asked4 = RequestView::Print(line);
    let replies0 = Seq::<ReplyView>::empty();
    let replies1 = replies0.push(answer(world, now, asked0));
    let replies2 = replies1.push(answer(world, now, asked1));
    let replies3 = replies2.push(answer(world, now, asked2));
    let replies4 = replies3.push(answer(world, now, asked3));
    let replies5 = replies4.push(answer(world, gone, asked4));
    lemma_without_agent(context, paths, backend, replies0);
    lemma_without_agent(context, paths, backend, replies1);
    lemma_without_agent(context, paths, backend, replies2);
    lemma_without_agent(context, paths, backend, replies3);
    lemma_without_agent(context, paths, backend, replies4);
    lemma_without_agent(context, paths, backend, replies5);
    lemma_begun_step(world, paths, backend, command, context, replies0, machine, 7, asked0);
    lemma_begun_step(world, paths, backend, command, context, replies1, machine, 6, asked1);
    lemma_begun_step(world, paths, backend, command, context, replies2, machine, 5, asked2);
    lemma_begun_step(world, paths, backend, command, context, replies3, machine, 4, asked3);
    lemma_begun_step(world, paths, backend, command, context, replies4, removed, 3, asked4);
}

proof fn lemma_loaded_acts(
    paths: SchedulePathsView,
    backend: MacOsBackendView,
    process: u64,
    replies: Seq<ReplyView>,
)
    requires
        backend.launch_agent == paths.launch_agent,
        3 <= replies.len() <= 7,
        replies.len() > 3 ==> exits(replies[3], true),
        replies.len() > 4 ==> is_gone(replies[4]),
        replies.len() > 5 ==> is_gone(replies[5]),
    ensures
        backend::acts_flow(
            backend,
            paths.settings,
            process,
            backend::uninstall_actions(true, true),
            0,
            replies,
            3,
        ) == if replies.len() == 3 {
            Flow::<(int, Option<ScheduleErrorView>)>::Ask(
                RequestView::RunProgram(backend::bootout_line(backend)),
            )
        } else if replies.len() == 4 {
            Flow::Ask(RequestView::RemoveFile(paths.launch_agent))
        } else if replies.len() == 5 {
            Flow::Ask(RequestView::RemoveFile(paths.settings))
        } else {
            Flow::Done((3, None), 6)
        },
{
    reveal_with_fuel(backend::acts_flow, 4);
    assert(backend::uninstall_actions(true, true) =~= seq![
        backend::ActionView::Bootout,
        backend::ActionView::PutAgent(None),
        backend::ActionView::PutSettings(None),
    ]);
}

proof fn lemma_with_loaded_agent(
    context: ScheduleContextView,
    paths: SchedulePathsView,
    backend: MacOsBackendView,
    replies: Seq<ReplyView>,
)
    requires
        schedule::supported(context.platform) is Ok,
        schedule::schedule_paths(context.environment) == Ok::<
            SchedulePathsView,
            ScheduleErrorView,
        >(paths),
        replies.len() > 0 ==> knows_user(paths, backend, replies[0]),
        replies.len() > 1 ==> replies[1] == ReplyView::Exists(true),
        replies.len() > 2 ==> exits(replies[2], true),
        replies.len() > 3 ==> exits(replies[3], true),
        replies.len() > 4 ==> is_gone(replies[4]),
        replies.len() > 5 ==> is_gone(replies[5]),
        replies.len() > 6 ==> replies[6] == ReplyView::Written(Ok(())),
        replies.len() <= 7,
    ensures
        first_piece(ScheduleCommand::Uninstall, context, replies) == if replies.len() == 0 {
            Flow::<Result<OpeningView, ScheduleErrorView>>::Ask(
                RequestView::RunProgram(backend::user_line()),
            )
        } else if replies.len() == 1 {
            Flow::Ask(RequestView::Exists(paths.launch_agent))
        } else if replies.len() == 2 {
            Flow::Ask(RequestView::RunProgram(backend::print_line(backend)))
        } else if replies.len() == 3 {
            Flow::Ask(RequestView::RunProgram(backend::bootout_line(backend)))
        } else if replies.len() == 4 {
            Flow::Ask(RequestView::RemoveFile(paths.launch_agent))
        } else if replies.len() == 5 {
            Flow::Ask(RequestView::RemoveFile(paths.settings))
        } else if replies.len() == 6 {
            Flow::Ask(RequestView::Print(schedule::uninstalled_line(true)))
        } else {
            Flow::Done(Ok(OpeningView::Finished), 7)
        },
{
    reveal_with_fuel(steps::lines_flow, 3);
    lemma_user_known(ScheduleCommand::Uninstall, context, paths, backend, replies);
    if replies.len() >= 3 {
        lemma_loaded_acts(paths, backend, context.process, replies);
    }
}

proof fn lemma_idle_acts(
    paths: SchedulePathsView,
    backend: MacOsBackendView,
    process: u64,
    replies: Seq<ReplyView>,
)
    requires
        backend.launch_agent == paths.launch_agent,
        3 <= replies.len() <= 6,
        replies.len() > 3 ==> is_gone(replies[3]),
        replies.len() > 4 ==> is_gone(replies[4]),
    ensures
        backend::acts_flow(
            backend,
            paths.settings,
            process,
            backend::uninstall_actions(true, false),
            0,
            replies,
            3,
        ) == if replies.len() == 3 {
            Flow::<(int, Option<ScheduleErrorView>)>::Ask(
                RequestView::RemoveFile(paths.launch_agent),
            )
        } else if replies.len() == 4 {
            Flow::Ask(RequestView::RemoveFile(paths.settings))
        } else {
            Flow::Done((2, None), 5)
        },
{
    reveal_with_fuel(backend::acts_flow, 3);
    assert(backend::uninstall_actions(true, false) =~= seq![
        backend::ActionView::PutAgent(None),
        backend::ActionView::PutSettings(None),
    ]);
}

proof fn lemma_with_idle_agent(
    context: ScheduleContextView,
    paths: SchedulePathsView,
    backend: MacOsBackendView,
    replies: Seq<ReplyView>,
)
    requires
        schedule::supported(context.platform) is Ok,
        schedule::schedule_paths(context.environment) == Ok::<
            SchedulePathsView,
            ScheduleErrorView,
        >(paths),
        replies.len() > 0 ==> knows_user(paths, backend, replies[0]),
        replies.len() > 1 ==> replies[1] == ReplyView::Exists(true),
        replies.len() > 2 ==> exits(replies[2], false),
        replies.len() > 3 ==> is_gone(replies[3]),
        replies.len() > 4 ==> is_gone(replies[4]),
        replies.len() > 5 ==> replies[5] == ReplyView::Written(Ok(())),
        replies.len() <= 6,
    ensures
        first_piece(ScheduleCommand::Uninstall, context, replies) == if replies.len() == 0 {
            Flow::<Result<OpeningView, ScheduleErrorView>>::Ask(
                RequestView::RunProgram(backend::user_line()),
            )
        } else if replies.len() == 1 {
            Flow::Ask(RequestView::Exists(paths.launch_agent))
        } else if replies.len() == 2 {
            Flow::Ask(RequestView::RunProgram(backend::print_line(backend)))
        } else if replies.len() == 3 {
            Flow::Ask(RequestView::RemoveFile(paths.launch_agent))
        } else if replies.len() == 4 {
            Flow::Ask(RequestView::RemoveFile(paths.settings))
        } else if replies.len() == 5 {
            Flow::Ask(RequestView::Print(schedule::uninstalled_line(true)))
        } else {
            Flow::Done(Ok(OpeningView::Finished), 6)
        },
{
    reveal_with_fuel(steps::lines_flow, 3);
    lemma_user_known(ScheduleCommand::Uninstall, context, paths, backend, replies);
    if replies.len() >= 3 {
        lemma_idle_acts(paths, backend, context.process, replies);
    }
}

proof fn lemma_uninstalling_loaded_agent(
    world: spec_fn(Installation, RequestView) -> ReplyView,
    paths: SchedulePathsView,
    backend: MacOsBackendView,
    context: ScheduleContextView,
    machine: Machine,
)
    requires
        schedule::supported(context.platform) is Ok,
        schedule::schedule_paths(context.environment) == Ok::<
            SchedulePathsView,
            ScheduleErrorView,
        >(paths),
        truthful(world, paths, backend),
        obliging(world, paths, backend),
        machine.installation.agent is Some,
        machine.installation.loaded,
    ensures
        ({
            let end = carried_out(
                world,
                paths,
                backend,
                begun(ScheduleCommand::Uninstall, context, Seq::empty()),
                machine,
                7,
            );
            end.0.phase == SchedulePhaseView::Over(Ok(())) && end.1 == uninstalled(machine)
        }),
{
    lemma_files(context, paths);
    lemma_lines(backend);
    let command = ScheduleCommand::Uninstall;
    let machine0 = machine;
    let replies0 = Seq::<ReplyView>::empty();
    let asked0 = RequestView::RunProgram(backend::user_line());
    let replies1 = replies0.push(answer(world, machine0.installation, asked0));
    let machine1 = after(paths, backend, machine0, asked0);
    let asked1 = RequestView::Exists(paths.launch_agent);
    let replies2 = replies1.push(answer(world, machine1.installation, asked1));
    let machine2 = after(paths, backend, machine1, asked1);
    let asked2 = RequestView::RunProgram(backend::print_line(backend));
    let replies3 = replies2.push(answer(world, machine2.installation, asked2));
    let machine3 = after(paths, backend, machine2, asked2);
    let asked3 = RequestView::RunProgram(backend::bootout_line(backend));
    let replies4 = replies3.push(answer(world, machine3.installation, asked3));
    let machine4 = after(paths, backend, machine3, asked3);
    let asked4 = RequestView::RemoveFile(paths.launch_agent);
    let replies5 = replies4.push(answer(world, machine4.installation, asked4));
    let machine5 = after(paths, backend, machine4, asked4);
    let asked5 = RequestView::RemoveFile(paths.settings);
    let replies6 = replies5.push(answer(world, machine5.installation, asked5));
    let machine6 = after(paths, backend, machine5, asked5);
    let asked6 = RequestView::Print(schedule::uninstalled_line(true));
    let replies7 = replies6.push(answer(world, machine6.installation, asked6));
    let machine7 = after(paths, backend, machine6, asked6);
    lemma_with_loaded_agent(context, paths, backend, replies0);
    lemma_with_loaded_agent(context, paths, backend, replies1);
    lemma_with_loaded_agent(context, paths, backend, replies2);
    lemma_with_loaded_agent(context, paths, backend, replies3);
    lemma_with_loaded_agent(context, paths, backend, replies4);
    lemma_with_loaded_agent(context, paths, backend, replies5);
    lemma_with_loaded_agent(context, paths, backend, replies6);
    lemma_with_loaded_agent(context, paths, backend, replies7);
    lemma_begun_step(world, paths, backend, command, context, replies0, machine0, 7, asked0);
    lemma_begun_step(world, paths, backend, command, context, replies1, machine1, 6, asked1);
    lemma_begun_step(world, paths, backend, command, context, replies2, machine2, 5, asked2);
    lemma_begun_step(world, paths, backend, command, context, replies3, machine3, 4, asked3);
    lemma_begun_step(world, paths, backend, command, context, replies4, machine4, 3, asked4);
    lemma_begun_step(world, paths, backend, command, context, replies5, machine5, 2, asked5);
    lemma_begun_step(world, paths, backend, command, context, replies6, machine6, 1, asked6);
}

proof fn lemma_uninstalling_idle_agent(
    world: spec_fn(Installation, RequestView) -> ReplyView,
    paths: SchedulePathsView,
    backend: MacOsBackendView,
    context: ScheduleContextView,
    machine: Machine,
)
    requires
        schedule::supported(context.platform) is Ok,
        schedule::schedule_paths(context.environment) == Ok::<
            SchedulePathsView,
            ScheduleErrorView,
        >(paths),
        truthful(world, paths, backend),
        obliging(world, paths, backend),
        machine.installation.agent is Some,
        !machine.installation.loaded,
    ensures
        ({
            let end = carried_out(
                world,
                paths,
                backend,
                begun(ScheduleCommand::Uninstall, context, Seq::empty()),
                machine,
                7,
            );
            end.0.phase == SchedulePhaseView::Over(Ok(())) && end.1 == uninstalled(machine)
        }),
{
    lemma_files(context, paths);
    lemma_lines(backend);
    let command = ScheduleCommand::Uninstall;
    let machine0 = machine;
    let replies0 = Seq::<ReplyView>::empty();
    let asked0 = RequestView::RunProgram(backend::user_line());
    let replies1 = replies0.push(answer(world, machine0.installation, asked0));
    let machine1 = after(paths, backend, machine0, asked0);
    let asked1 = RequestView::Exists(paths.launch_agent);
    let replies2 = replies1.push(answer(world, machine1.installation, asked1));
    let machine2 = after(paths, backend, machine1, asked1);
    let asked2 = RequestView::RunProgram(backend::print_line(backend));
    let replies3 = replies2.push(answer(world, machine2.installation, asked2));
    let machine3 = after(paths, backend, machine2, asked2);
    let asked3 = RequestView::RemoveFile(paths.launch_agent);
    let replies4 = replies3.push(answer(world, machine3.installation, asked3));
    let machine4 = after(paths, backend, machine3, asked3);
    let asked4 = RequestView::RemoveFile(paths.settings);
    let replies5 = replies4.push(answer(world, machine4.installation, asked4));
    let machine5 = after(paths, backend, machine4, asked4);
    let asked5 = RequestView::Print(schedule::uninstalled_line(true));
    let replies6 = replies5.push(answer(world, machine5.installation, asked5));
    let machine6 = after(paths, backend, machine5, asked5);
    lemma_with_idle_agent(context, paths, backend, replies0);
    lemma_with_idle_agent(context, paths, backend, replies1);
    lemma_with_idle_agent(context, paths, backend, replies2);
    lemma_with_idle_agent(context, paths, backend, replies3);
    lemma_with_idle_agent(context, paths, backend, replies4);
    lemma_with_idle_agent(context, paths, backend, replies5);
    lemma_with_idle_agent(context, paths, backend, replies6);
    lemma_begun_step(world, paths, backend, command, context, replies0, machine0, 7, asked0);
    lemma_begun_step(world, paths, backend, command, context, replies1, machine1, 6, asked1);
    lemma_begun_step(world, paths, backend, command, context, replies2, machine2, 5, asked2);
    lemma_begun_step(world, paths, backend, command, context, replies3, machine3, 4, asked3);
    lemma_begun_step(world, paths, backend, command, context, replies4, machine4, 3, asked4);
    lemma_begun_step(world, paths, backend, command, context, replies5, machine5, 2, asked5);
}

/// Uninstalling succeeds on a machine that does what it is asked to do, in seven requests at most.
/// Afterwards neither file is there, the service is not loaded if its LaunchAgent was there, one
/// line tells whether anything was installed, and no other path was touched: the logs stay.
pub proof fn law_uninstalling_succeeds(
    world: spec_fn(Installation, RequestView) -> ReplyView,
    paths: SchedulePathsView,
    backend: MacOsBackendView,
    context: ScheduleContextView,
    machine: Machine,
)
    requires
        schedule::supported(context.platform) is Ok,
        schedule::schedule_paths(context.environment) == Ok::<
            SchedulePathsView,
            ScheduleErrorView,
        >(paths),
        truthful(world, paths, backend),
        obliging(world, paths, backend),
    ensures
        ({
            let end = carried_out(
                world,
                paths,
                backend,
                schedule::new_schedule(ScheduleCommand::Uninstall, context),
                machine,
                7,
            );
            end.0.phase == SchedulePhaseView::Over(Ok(())) && end.1 == uninstalled(machine)
        }),
{
    lemma_first(ScheduleCommand::Uninstall, context, paths);
    if machine.installation.agent is None {
        lemma_uninstalling_without_agent(world, paths, backend, context, machine);
    } else if machine.installation.loaded {
        lemma_uninstalling_loaded_agent(world, paths, backend, context, machine);
    } else {
        lemma_uninstalling_idle_agent(world, paths, backend, context, machine);
    }
}

/// Uninstalling once more succeeds too, changes nothing, and tells that the schedule is already
/// uninstalled.
pub proof fn law_uninstalling_twice_succeeds(
    world: spec_fn(Installation, RequestView) -> ReplyView,
    paths: SchedulePathsView,
    backend: MacOsBackendView,
    context: ScheduleContextView,
    again: ScheduleContextView,
    machine: Machine,
)
    requires
        schedule::supported(context.platform) is Ok,
        schedule::schedule_paths(context.environment) == Ok::<
            SchedulePathsView,
            ScheduleErrorView,
        >(paths),
        schedule::supported(again.platform) is Ok,
        schedule::schedule_paths(again.environment) == Ok::<
            SchedulePathsView,
            ScheduleErrorView,
        >(paths),
        truthful(world, paths, backend),
        obliging(world, paths, backend),
    ensures
        ({
            let first = carried_out(
                world,
                paths,
                backend,
                schedule::new_schedule(ScheduleCommand::Uninstall, context),
                machine,
                7,
            ).1;
            let (second, end) = carried_out(
                world,
                paths,
                backend,
                schedule::new_schedule(ScheduleCommand::Uninstall, again),
                first,
                7,
            );
            &&& second.phase == SchedulePhaseView::Over(Ok(()))
            &&& end.installation == first.installation
            &&& end.touched == first.touched
            &&& end.printed == first.printed.push(LABEL@ + " is already uninstalled"@)
        }),
{
    law_uninstalling_succeeds(world, paths, backend, context, machine);
    law_uninstalling_succeeds(world, paths, backend, again, uninstalled(machine));
}

} // verus!
