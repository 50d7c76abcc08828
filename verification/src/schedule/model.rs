//! What scheduling commands ask of their surroundings, told of the words and the files.
use crate::command::{EditorStatusView, ProgramLineView, ReplyView, RequestView};
use crate::filepath;
use crate::flow;
use crate::flow::Flow;
use crate::launch_agent;
use crate::launch_agent::{ScheduleEnvironmentView, ScheduleMode, ScheduleSettings};
use crate::paths::EnvironmentView;
use crate::schedule;
use crate::schedule::backend;
use crate::schedule::backend::{ActionView, MacOsBackendView};
use crate::schedule::environment;
use crate::schedule::error::ScheduleErrorView;
use crate::schedule::preflight;
use crate::schedule::preflight::PreflightFailureView;
use crate::schedule::steps;
use crate::schedule::ScheduleContextView;
use crate::text;
use vstd::prelude::*;
use vstd::utf8::*;

verus! {

/// Settings are valid exactly with an interval from 300 through 604,800 seconds; only valid ones
/// are read.
pub proof fn law_intervals_have_limits(settings: ScheduleSettings, path: Seq<u8>)
    ensures
        launch_agent::settings_valid(settings) <==> 300 <= settings.interval_seconds <= 604_800,
        steps::told_settings(path, ReplyView::Settings(Ok(settings))) is Ok <==> 300
            <= settings.interval_seconds <= 604_800,
        steps::told_settings(path, ReplyView::Settings(Ok(settings))) matches Ok(told) ==> told
            == settings,
        steps::told_settings(path, ReplyView::Settings(Ok(settings))) matches Err(error) ==> error
            is InvalidSettings,
{
}

/// Settings are written down as the mode and the interval, behind a remark.
pub proof fn law_settings_are_written_as_they_are(settings: ScheduleSettings)
    ensures
        settings.mode == ScheduleMode::Scan ==> launch_agent::encoded_settings(settings)
            == "# Managed by `lop schedule`; edit with `lop schedule edit`.\nmode = \"scan\"\ninterval_seconds = "@
            + text::decimal_text(settings.interval_seconds as nat) + "\n"@,
        settings.mode == ScheduleMode::Prune ==> launch_agent::encoded_settings(settings)
            == "# Managed by `lop schedule`; edit with `lop schedule edit`.\nmode = \"prune\"\ninterval_seconds = "@
            + text::decimal_text(settings.interval_seconds as nat) + "\n"@,
{
    reveal_strlit("# Managed by `lop schedule`; edit with `lop schedule edit`.\nmode = \"");
    reveal_strlit("scan");
    reveal_strlit("prune");
    reveal_strlit("\"\ninterval_seconds = ");
    reveal_strlit(
        "# Managed by `lop schedule`; edit with `lop schedule edit`.\nmode = \"scan\"\ninterval_seconds = ",
    );
    reveal_strlit(
        "# Managed by `lop schedule`; edit with `lop schedule edit`.\nmode = \"prune\"\ninterval_seconds = ",
    );
    let front = "# Managed by `lop schedule`; edit with `lop schedule edit`.\nmode = \""@;
    let back = "\"\ninterval_seconds = "@;
    assert(front + "scan"@ + back
        =~= "# Managed by `lop schedule`; edit with `lop schedule edit`.\nmode = \"scan\"\ninterval_seconds = "@);
    assert(front + "prune"@ + back
        =~= "# Managed by `lop schedule`; edit with `lop schedule edit`.\nmode = \"prune\"\ninterval_seconds = "@);
}

/// The files of a schedule are kept below the home directory, but for the settings, which are kept
/// where the XDG variable says, where it is set and not empty.
pub proof fn law_schedule_files_are_kept_where_the_environment_says(environment: EnvironmentView)
    ensures
        ({
            let home = environment.home;
            let config = environment.xdg_config_home;
            let set = config is Some && config->0.path.len() > 0;
            match schedule::schedule_paths(environment) {
                Ok(paths) => {
                    &&& home is Some && home->0.len() > 0
                    &&& set ==> filepath::absolute(config->0.path)
                    &&& paths.settings == filepath::joined(
                        if set {
                            config->0.path
                        } else {
                            filepath::joined(home->0, encode_utf8(".config"@))
                        },
                        encode_utf8("lop/schedule.toml"@),
                    )
                    &&& paths.launch_agent == filepath::joined(
                        home->0,
                        encode_utf8("Library/LaunchAgents/org.nixos.lop.plist"@),
                    )
                    &&& paths.log_directory == filepath::joined(
                        home->0,
                        encode_utf8("Library/Logs/org.nixos"@),
                    )
                },
                Err(ScheduleErrorView::MissingHome) => home is None || home->0.len() == 0,
                Err(ScheduleErrorView::RelativeXdgPath { variable, value }) => set && Some(value)
                    == config && variable == "XDG_CONFIG_HOME"@ && !filepath::absolute(value.path),
                Err(_) => false,
            }
        }),
{
}

/// Whether a line runs a program with arguments, away from any other repository, with a limit of
/// time.
pub open spec fn runs_program(
    line: ProgramLineView,
    program: Seq<u8>,
    arguments: Seq<Seq<char>>,
    timeout: u64,
) -> bool {
    &&& line.program == program
    &&& line.arguments =~= arguments
    &&& line.removed.contains("GIT_DIR"@)
    &&& line.removed.contains("GIT_WORK_TREE"@)
    &&& line.environment.contains(("GIT_OPTIONAL_LOCKS"@, "0"@))
    &&& line.timeout == timeout
}

proof fn lemma_runs_program(line: ProgramLineView)
    requires
        line.removed == crate::command::git_removed(),
        line.environment.len() > 0,
        line.environment[0] == ("GIT_OPTIONAL_LOCKS"@, "0"@),
    ensures
        line.removed.contains("GIT_DIR"@),
        line.removed.contains("GIT_WORK_TREE"@),
        line.environment.contains(("GIT_OPTIONAL_LOCKS"@, "0"@)),
{
    assert(line.removed[0] == "GIT_DIR"@);
    assert(line.removed[1] == "GIT_WORK_TREE"@);
}

/// The service is asked about, booted out and bootstrapped by its name and its LaunchAgent, in the
/// domain of the user whom `id -u` tells.
pub proof fn law_the_service_is_managed_by_launchctl(backend: MacOsBackendView)
    ensures
        runs_program(backend::user_line(), encode_utf8("/usr/bin/id"@), seq!["-u"@], 15),
        runs_program(
            backend::print_line(backend),
            backend.launchctl,
            seq!["print"@, backend.domain + "/"@ + "org.nixos.lop"@],
            15,
        ),
        runs_program(
            backend::bootout_line(backend),
            backend.launchctl,
            seq!["bootout"@, backend.domain + "/"@ + "org.nixos.lop"@],
            15,
        ),
        runs_program(
            backend::bootstrap_line(backend),
            backend.launchctl,
            seq!["bootstrap"@, backend.domain, text::lossy_text(backend.launch_agent)],
            15,
        ),
{
    lemma_runs_program(backend::user_line());
    lemma_runs_program(backend::print_line(backend));
    lemma_runs_program(backend::bootout_line(backend));
    lemma_runs_program(backend::bootstrap_line(backend));
}

/// The files of a schedule are written with permissions: the settings for the user alone, the
/// LaunchAgent for everybody to read.
pub proof fn law_files_are_written_with_their_permissions(
    backend: MacOsBackendView,
    settings: Seq<u8>,
    process: u64,
    contents: Seq<u8>,
)
    requires
        filepath::parent_path(settings) is Some,
        filepath::parent_path(backend.launch_agent) is Some,
    ensures
        backend::act_flow(
            backend,
            settings,
            process,
            ActionView::PutSettings(Some(contents)),
            seq![ReplyView::Stored(Ok(()))],
            0,
        ) matches Flow::Ask(RequestView::WriteFile { path, contents: written, mode, .. }) && path
            == settings && written == contents && mode == 0o600,
        backend::act_flow(
            backend,
            settings,
            process,
            ActionView::PutAgent(Some(contents)),
            seq![ReplyView::Stored(Ok(()))],
            0,
        ) matches Flow::Ask(RequestView::WriteFile { path, contents: written, mode, .. }) && path
            == backend.launch_agent && written == contents && mode == 0o644,
        backend::act_flow(
            backend,
            settings,
            process,
            ActionView::PutAgent(None),
            seq![],
            0,
        ) matches Flow::Ask(RequestView::RemoveFile(path)) && path == backend.launch_agent,
{
}

/// The check of a repository lists its remotes and fetches all of them as a trial, without changing
/// anything and without asking anybody, in the surroundings of a scheduled run; the SSH agent is
/// asked for its identities through its socket.
pub proof fn law_repositories_are_tried_as_a_schedule_would(
    environment: ScheduleEnvironmentView,
    repository: Seq<u8>,
    timeout: u64,
    ssh_add: Seq<u8>,
    socket: Seq<u8>,
)
    ensures
        runs_program(
            preflight::remotes_line(environment.programs.git, repository),
            environment.programs.git,
            seq!["-C"@, text::lossy_text(repository), "remote"@, "-v"@],
            60,
        ),
        runs_program(
            preflight::trial_line(environment, repository, timeout),
            environment.programs.git,
            seq![
                "-C"@,
                text::lossy_text(repository),
                "fetch"@,
                "--all"@,
                "--prune"@,
                "--dry-run"@,
                "--no-recurse-submodules"@,
            ],
            timeout,
        ),
        preflight::trial_line(environment, repository, timeout).environment.contains(
            ("PATH"@, environment.programs.path),
        ),
        preflight::trial_line(environment, repository, timeout).environment.contains(
            ("GIT_TERMINAL_PROMPT"@, "0"@),
        ),
        preflight::trial_line(environment, repository, timeout).environment.contains(
            ("GIT_SSH_COMMAND"@, "/usr/bin/ssh -o BatchMode=yes"@),
        ),
        environment.ssh_auth_sock matches Some(socket) ==> preflight::trial_line(
            environment,
            repository,
            timeout,
        ).environment.contains(("SSH_AUTH_SOCK"@, text::lossy_text(socket.path))),
        runs_program(preflight::identities_line(ssh_add, socket), ssh_add, seq!["-l"@], 60),
        preflight::identities_line(ssh_add, socket).environment.contains(
            ("SSH_AUTH_SOCK"@, text::lossy_text(socket)),
        ),
{
    let trial = preflight::trial_line(environment, repository, timeout);
    lemma_runs_program(preflight::remotes_line(environment.programs.git, repository));
    lemma_runs_program(trial);
    lemma_runs_program(preflight::identities_line(ssh_add, socket));
    assert(trial.environment[1] == ("PATH"@, environment.programs.path));
    assert(trial.environment[2] == ("GIT_TERMINAL_PROMPT"@, "0"@));
    assert(trial.environment[3] == ("GIT_SSH_COMMAND"@, "/usr/bin/ssh -o BatchMode=yes"@));
    if let Some(socket) = environment.ssh_auth_sock {
        assert(trial.environment[4] == ("SSH_AUTH_SOCK"@, text::lossy_text(socket.path)));
    }
    assert(preflight::identities_line(ssh_add, socket).environment[1] == (
        "SSH_AUTH_SOCK"@,
        text::lossy_text(socket),
    ));
}

/// A schedule is put in place exactly where every repository can be fetched, or it only scans, or
/// its degradation is allowed.
pub proof fn law_degraded_schedules_need_a_word(
    settings: ScheduleSettings,
    allowed: bool,
    failures: Seq<PreflightFailureView>,
)
    ensures
        !schedule::may_apply(settings, allowed, failures) <==> failures.len() > 0 && settings.mode
            == ScheduleMode::Prune && !allowed,
{
}

/// The editor is the one of `VISUAL`, or of `EDITOR` where that is unset or empty.
pub proof fn law_the_visual_editor_comes_first(context: ScheduleContextView)
    ensures
        context.visual matches Some(editor) ==> (editor.len() > 0 ==> schedule::chosen_editor(
            context,
        ) == Some(editor)),
        context.visual is None || context.visual->0.len() == 0 ==> schedule::chosen_editor(context)
            == if context.editor is Some && context.editor->0.len() > 0 {
            context.editor
        } else {
            None
        },
{
}

/// An edit works on a copy that is written for the user alone: the editor is run on it, what it left
/// there is read, and the copy is removed in any case. Settings come of it exactly when the editor
/// succeeded and left valid ones.
pub proof fn law_edits_work_on_a_copy(
    world: spec_fn(RequestView) -> ReplyView,
    editor: Seq<u8>,
    current: ScheduleSettings,
    path: Seq<u8>,
    process: u64,
    status: EditorStatusView,
    left: ScheduleSettings,
)
    requires
        filepath::parent_path(path) is Some,
        world(RequestView::CreateDirectories(filepath::parent_path(path)->0)) == ReplyView::Stored(
            Ok(()),
        ),
        forall|temporary: Seq<u8>|
            #[trigger] world(
                RequestView::WriteFile {
                    path,
                    temporary,
                    contents: encode_utf8(launch_agent::encoded_settings(current)),
                    mode: 0o600,
                },
            ) == ReplyView::Stored(Ok(())),
        world(RequestView::RunEditor { editor, path }) == ReplyView::Edited(Ok(status)),
        world(RequestView::LoadSettings(path)) == ReplyView::Settings(Ok(left)),
        world(RequestView::RemoveFile(path)) == ReplyView::Removed(Ok(())),
    ensures
        ({
            let work = |replies: Seq<ReplyView>|
                schedule::edited_flow(editor, current, path, process, replies, 0);
            let told = flow::answered(work, world, Seq::empty(), 5);
            &&& status.success && 300 <= left.interval_seconds <= 604_800 ==> told == Some(
                Ok::<ScheduleSettings, ScheduleErrorView>(left),
            )
            &&& status.success && !(300 <= left.interval_seconds <= 604_800) ==> (told
                matches Some(Err(error)) && error is InvalidSettings)
            &&& !status.success ==> (told matches Some(Err(error)) && error is EditorFailed)
        }),
{
    let work = |replies: Seq<ReplyView>|
        schedule::edited_flow(editor, current, path, process, replies, 0);
    let parent = filepath::parent_path(path)->0;
    let asked0 = RequestView::CreateDirectories(parent);
    let asked1 = RequestView::WriteFile {
        path,
        temporary: steps::temporary_path(path, parent, process),
        contents: encode_utf8(launch_agent::encoded_settings(current)),
        mode: 0o600,
    };
    let asked2 = RequestView::RunEditor { editor, path };
    let asked3 = RequestView::LoadSettings(path);
    let asked4 = RequestView::RemoveFile(path);
    let replies0 = Seq::<ReplyView>::empty();
    let replies1 = replies0.push(world(asked0));
    let replies2 = replies1.push(world(asked1));
    let replies3 = replies2.push(world(asked2));
    flow::lemma_answered_asks(work, world, replies0, 5, asked0);
    flow::lemma_answered_asks(work, world, replies1, 4, asked1);
    flow::lemma_answered_asks(work, world, replies2, 3, asked2);
    if status.success {
        let replies4 = replies3.push(world(asked3));
        flow::lemma_answered_asks(work, world, replies3, 2, asked3);
        flow::lemma_answered_asks(work, world, replies4, 1, asked4);
    } else {
        flow::lemma_answered_asks(work, world, replies3, 2, asked4);
    }
}

/// Whether a directory has a program.
pub open spec fn has_program(
    world: spec_fn(RequestView) -> ReplyView,
    directory: Seq<u8>,
    name: Seq<char>,
) -> bool {
    world(RequestView::IsExecutable(filepath::joined(directory, encode_utf8(name))))
        == ReplyView::Exists(true)
}

proof fn lemma_found(
    world: spec_fn(RequestView) -> ReplyView,
    name: Seq<char>,
    directories: Seq<Seq<u8>>,
    replies: Seq<ReplyView>,
)
    requires
        replies.len() <= directories.len(),
        forall|j: int|
            0 <= j < replies.len() ==> #[trigger] replies[j] == world(
                RequestView::IsExecutable(
                    filepath::joined(directories[j], encode_utf8(name)),
                ),
            ) && !has_program(world, directories[j], name),
    ensures
        flow::answered(
            |replies: Seq<ReplyView>| steps::find_flow(name, directories, 0, replies, 0),
            world,
            replies,
            (directories.len() - replies.len()) as nat,
        ) matches Some(result) && match result {
            Ok(program) => exists|i: int|
                replies.len() <= i < directories.len() && has_program(
                    world,
                    #[trigger] directories[i],
                    name,
                ) && program == filepath::joined(directories[i], encode_utf8(name)) && forall|
                    j: int,
                |
                    0 <= j < i ==> !has_program(world, #[trigger] directories[j], name),
            Err(error) => error == (ScheduleErrorView::MissingExecutable { name }) && forall|j: int|
                0 <= j < directories.len() ==> !has_program(world, #[trigger] directories[j], name),
        },
    decreases directories.len() - replies.len(),
{
    let work = |replies: Seq<ReplyView>| steps::find_flow(name, directories, 0, replies, 0);
    let n = replies.len() as int;
    assert forall|j: int| 0 <= j < n implies replies[j] != ReplyView::Exists(true) by {
        assert(replies[j] == world(
            RequestView::IsExecutable(filepath::joined(directories[j], encode_utf8(name))),
        ));
    }
    lemma_passed(name, directories, 0, replies, n);
    assert forall|j: int| 0 <= j < n implies !has_program(world, #[trigger] directories[j], name) by {
        assert(replies[j] == world(
            RequestView::IsExecutable(filepath::joined(directories[j], encode_utf8(name))),
        ));
    }
    if n < directories.len() {
        let candidate = filepath::joined(directories[n], encode_utf8(name));
        let asked = RequestView::IsExecutable(candidate);
        let longer = replies.push(world(asked));
        let more = (directories.len() - n) as nat;
        assert(work(replies) == Flow::<Result<Seq<u8>, ScheduleErrorView>>::Ask(asked));
        flow::lemma_answered_asks(work, world, replies, more, asked);
        if has_program(world, directories[n], name) {
            assert forall|j: int| 0 <= j < n implies longer[j] != ReplyView::Exists(true) by {
                assert(longer[j] == replies[j]);
            }
            lemma_passed(name, directories, 0, longer, n);
            assert(longer[n] == ReplyView::Exists(true));
            assert(work(longer) == Flow::<Result<Seq<u8>, ScheduleErrorView>>::Done(
                Ok(candidate),
                n + 1,
            ));
            flow::lemma_answered_done(work, world, longer, (more - 1) as nat);
            assert(has_program(world, directories[n], name));
        } else {
            assert forall|j: int| 0 <= j < longer.len() implies #[trigger] longer[j] == world(
                RequestView::IsExecutable(filepath::joined(directories[j], encode_utf8(name))),
            ) && !has_program(world, directories[j], name) by {
                if j < n {
                    assert(longer[j] == replies[j]);
                }
            }
            lemma_found(world, name, directories, longer);
        }
    }
}

proof fn lemma_passed(
    name: Seq<char>,
    directories: Seq<Seq<u8>>,
    i: int,
    replies: Seq<ReplyView>,
    n: int,
)
    requires
        0 <= i <= n <= replies.len(),
        n <= directories.len(),
        forall|j: int| i <= j < n ==> #[trigger] replies[j] != ReplyView::Exists(true),
    ensures
        steps::find_flow(name, directories, i, replies, i) == steps::find_flow(
            name,
            directories,
            n,
            replies,
            n,
        ),
    decreases n - i,
{
    if i < n {
        assert(replies[i] != ReplyView::Exists(true));
        lemma_passed(name, directories, i + 1, replies, n);
    }
}

/// A program is the first of its name in the directories of the search path, and missing only where
/// none of them has it.
pub proof fn law_the_first_program_counts(
    world: spec_fn(RequestView) -> ReplyView,
    name: Seq<char>,
    directories: Seq<Seq<u8>>,
)
    ensures
        flow::answered(
            |replies: Seq<ReplyView>| steps::find_flow(name, directories, 0, replies, 0),
            world,
            Seq::empty(),
            directories.len(),
        ) matches Some(result) && match result {
            Ok(program) => exists|i: int|
                0 <= i < directories.len() && has_program(
                    world,
                    #[trigger] directories[i],
                    name,
                ) && program == filepath::joined(directories[i], encode_utf8(name)) && forall|
                    j: int,
                |
                    0 <= j < i ==> !has_program(world, #[trigger] directories[j], name),
            Err(error) => error == (ScheduleErrorView::MissingExecutable { name }) && forall|j: int|
                0 <= j < directories.len() ==> !has_program(world, #[trigger] directories[j], name),
        },
{
    lemma_found(world, name, directories, Seq::empty());
}

/// Whether a directory is among others, whatever the spelling.
pub open spec fn has_directory(directories: Seq<Seq<u8>>, directory: Seq<u8>) -> bool {
    exists|i: int|
        0 <= i < directories.len() && filepath::same_path(#[trigger] directories[i], directory)
}

proof fn lemma_insert_directory(directories: Seq<Seq<u8>>, directory: Seq<u8>, other: Seq<u8>)
    ensures
        has_directory(environment::insert_directory(directories, directory), other)
            <==> has_directory(directories, other) || filepath::same_path(directory, other),
    decreases directories.len(),
{
    let longer = environment::insert_directory(directories, directory);
    if directories.len() == 0 {
        assert(longer[0] == directory);
    } else if filepath::same_path(directories.last(), directory) {
        assert(filepath::same_path(directories[directories.len() - 1], directory));
    } else if filepath::path_before(directories.last(), directory) {
        lemma_push_directory(directories, directory, other);
    } else {
        let shorter = directories.drop_last();
        lemma_insert_directory(shorter, directory, other);
        lemma_push_directory(
            environment::insert_directory(shorter, directory),
            directories.last(),
            other,
        );
        lemma_push_directory(shorter, directories.last(), other);
        assert(shorter.push(directories.last()) =~= directories);
    }
}

proof fn lemma_push_directory(directories: Seq<Seq<u8>>, directory: Seq<u8>, other: Seq<u8>)
    ensures
        has_directory(directories.push(directory), other) <==> has_directory(directories, other)
            || filepath::same_path(directory, other),
{
    let longer = directories.push(directory);
    if has_directory(directories, other) {
        let i = choose|i: int|
            0 <= i < directories.len() && filepath::same_path(#[trigger] directories[i], other);
        assert(filepath::same_path(longer[i], other));
    }
    if filepath::same_path(directory, other) {
        assert(filepath::same_path(longer[directories.len() as int], other));
    }
    if has_directory(longer, other) {
        let i = choose|i: int|
            0 <= i < longer.len() && filepath::same_path(#[trigger] longer[i], other);
        if i < directories.len() {
            assert(filepath::same_path(directories[i], other));
        }
    }
}

/// The search path of a scheduled run has the directories of Lop, Git and Worktrunk, `/usr/bin` and
/// `/bin`, and no others.
pub proof fn law_scheduled_runs_find_their_programs(
    lop: Seq<u8>,
    git: Seq<u8>,
    worktrunk: Seq<u8>,
    other: Seq<u8>,
)
    ensures
        has_directory(environment::run_directories(lop, git, worktrunk), other) <==> {
            ||| filepath::parent_path(lop) matches Some(parent) && filepath::same_path(parent, other)
            ||| filepath::parent_path(git) matches Some(parent) && filepath::same_path(parent, other)
            ||| filepath::parent_path(worktrunk) matches Some(parent) && filepath::same_path(
                parent,
                other,
            )
            ||| filepath::same_path(encode_utf8("/usr/bin"@), other)
            ||| filepath::same_path(encode_utf8("/bin"@), other)
        },
{
    let none = Seq::<Seq<u8>>::empty();
    let first = environment::insert_parent(none, lop);
    let second = environment::insert_parent(first, git);
    let third = environment::insert_parent(second, worktrunk);
    let fourth = environment::insert_directory(third, encode_utf8("/usr/bin"@));
    assert(!has_directory(none, other));
    if let Some(parent) = filepath::parent_path(lop) {
        lemma_insert_directory(none, parent, other);
    }
    if let Some(parent) = filepath::parent_path(git) {
        lemma_insert_directory(first, parent, other);
    }
    if let Some(parent) = filepath::parent_path(worktrunk) {
        lemma_insert_directory(second, parent, other);
    }
    lemma_insert_directory(third, encode_utf8("/usr/bin"@), other);
    lemma_insert_directory(fourth, encode_utf8("/bin"@), other);
}

/// Whether a remote is reached by SSH: its address says so, or is of the short form, with a user
/// before an `@` and a host before the first colon, and names no other protocol.
pub open spec fn reached_by_ssh(address: Seq<char>) -> bool {
    ||| address.len() >= 6 && address.take(6) == "ssh://"@
    ||| (forall|i: int|
        0 <= i && i + 3 <= address.len() ==> !(#[trigger] address[i] == ':' && address[i + 1] == '/'
            && address[i + 2] == '/')) && exists|i: int, j: int|
        0 <= i < j < address.len() && #[trigger] address[i] == '@' && #[trigger] address[j] == ':'
            && forall|k: int| 0 <= k < j ==> #[trigger] address[k] != ':'
}

proof fn lemma_split_front(address: Seq<char>, j: int)
    requires
        0 <= j < address.len(),
        address[j] == ':',
        forall|k: int| 0 <= k < j ==> #[trigger] address[k] != ':',
    ensures
        text::split_text(address, ':')[0] == address.take(j),
{
    let front = address.take(j);
    let rest = address.skip(j + 1);
    assert(address =~= front.push(':') + rest);
    text::lemma_split_joins(front, ':', rest);
    lemma_whole(front);
}

proof fn lemma_whole(front: Seq<char>)
    requires
        forall|k: int| 0 <= k < front.len() ==> #[trigger] front[k] != ':',
    ensures
        text::split_text(front, ':') == seq![front],
    decreases front.len(),
{
    if front.len() > 0 {
        let shorter = front.drop_last();
        assert forall|k: int| 0 <= k < shorter.len() implies #[trigger] shorter[k] != ':' by {
            assert(shorter[k] == front[k]);
        }
        lemma_whole(shorter);
        assert(front[front.len() - 1] != ':');
        assert(seq![shorter].drop_last() =~= Seq::<Seq<char>>::empty());
        assert(shorter.push(front.last()) =~= front);
        assert(text::split_text(front, ':') =~= seq![front]);
    } else {
        assert(front =~= Seq::<char>::empty());
    }
}

proof fn lemma_first_colon(address: Seq<char>, n: int) -> (j: int)
    requires
        0 <= n < address.len(),
        address[n] == ':',
    ensures
        0 <= j <= n,
        address[j] == ':',
        forall|k: int| 0 <= k < j ==> #[trigger] address[k] != ':',
    decreases n,
{
    if forall|k: int| 0 <= k < n ==> #[trigger] address[k] != ':' {
        n
    } else {
        let k = choose|k: int| 0 <= k < n && #[trigger] address[k] == ':';
        lemma_first_colon(address, k)
    }
}

/// A line of Git's list of remotes tells of one that is reached by SSH exactly by its address, which
/// is its second word.
pub proof fn law_ssh_remotes_are_told_by_their_address(line: Seq<char>, address: Seq<char>)
    requires
        text::second_word(line) == Some(address),
    ensures
        preflight::uses_ssh(line) <==> reached_by_ssh(address),
{
    reveal_strlit("ssh://");
    reveal_strlit("://");
    assert("://"@ =~= seq![':', '/', '/']);
    assert("ssh://"@.len() == 6);
    if address.len() >= 6 && address.take(6) == "ssh://"@ {
        assert("ssh://"@.is_prefix_of(address));
    }
    if "ssh://"@.is_prefix_of(address) {
        assert(address.take(6) =~= "ssh://"@);
    }
    let foreign = exists|i: int|
        0 <= i && i + 3 <= address.len() && #[trigger] address[i] == ':' && address[i + 1] == '/'
            && address[i + 2] == '/';
    if foreign {
        let i = choose|i: int|
            0 <= i && i + 3 <= address.len() && #[trigger] address[i] == ':' && address[i + 1] == '/'
                && address[i + 2] == '/';
        assert(address.skip(i).take(3) =~= "://"@);
        assert("://"@.is_prefix_of(address.skip(i)));
    }
    if text::holds_text(address, "://"@) {
        let i = choose|i: int|
            0 <= i <= address.len() && #[trigger] "://"@.is_prefix_of(address.skip(i));
        let part = address.skip(i).take(3);
        assert(part =~= "://"@);
        assert(address[i] == part[0] && address[i + 1] == part[1] && address[i + 2] == part[2]);
    }
    if address.contains(':') {
        let n = choose|n: int| 0 <= n < address.len() && address[n] == ':';
        let j = lemma_first_colon(address, n);
        lemma_split_front(address, j);
        let front = address.take(j);
        if front.contains('@') {
            let i = choose|i: int| 0 <= i < front.len() && front[i] == '@';
            assert(address[i] == '@' && address[j] == ':');
        }
        if exists|i: int, m: int|
            0 <= i < m < address.len() && #[trigger] address[i] == '@' && #[trigger] address[m]
                == ':' && forall|k: int| 0 <= k < m ==> #[trigger] address[k] != ':' {
            let (i, m) = choose|i: int, m: int|
                0 <= i < m < address.len() && #[trigger] address[i] == '@' && #[trigger] address[m]
                    == ':' && forall|k: int| 0 <= k < m ==> #[trigger] address[k] != ':';
            assert(m == j) by {
                if m < j {
                    assert(address[m] != ':');
                }
                if j < m {
                    assert(address[j] != ':');
                }
            }
            assert(front[i] == '@');
        }
    }
}

/// An edit needs a schedule that is installed, with both of its files, and an editor; without them it
/// ends before anything is written.
pub proof fn law_edits_need_a_schedule_and_an_editor(
    context: ScheduleContextView,
    allowed: bool,
    paths: crate::launch_agent::SchedulePathsView,
    backend: MacOsBackendView,
    settings: ScheduleSettings,
)
    requires
        launch_agent::settings_valid(settings),
    ensures
        schedule::begin_edit_flow(
            context,
            allowed,
            paths,
            backend,
            seq![ReplyView::Exists(false)],
            0,
        ) matches Flow::Done(Err(error), _) && error is NotInstalled,
        schedule::begin_edit_flow(
            context,
            allowed,
            paths,
            backend,
            seq![ReplyView::Exists(true), ReplyView::Exists(false)],
            0,
        ) matches Flow::Done(Err(error), _) && error is NotInstalled,
        schedule::begin_edit_flow(context, allowed, paths, backend, seq![], 0) == Flow::<
            Result<schedule::OpeningView, ScheduleErrorView>,
        >::Ask(RequestView::Exists(paths.settings)),
        schedule::begin_edit_flow(
            context,
            allowed,
            paths,
            backend,
            seq![ReplyView::Exists(true)],
            0,
        ) == Flow::<Result<schedule::OpeningView, ScheduleErrorView>>::Ask(
            RequestView::Exists(paths.launch_agent),
        ),
        (context.visual is None || context.visual->0.len() == 0) && (context.editor is None
            || context.editor->0.len() == 0) ==> (schedule::begin_edit_flow(
            context,
            allowed,
            paths,
            backend,
            seq![
                ReplyView::Exists(true),
                ReplyView::Exists(true),
                ReplyView::Settings(Ok(settings)),
            ],
            0,
        ) matches Flow::Done(Err(error), _) && error is MissingEditor),
{
}

/// Settings and what is installed agree exactly when the installed command, behind the program, is
/// that of the mode, and the intervals are the same.
pub proof fn law_drift_is_any_difference(
    installed: Option<launch_agent::InstalledCommandView>,
    settings: ScheduleSettings,
)
    ensures
        launch_agent::matches_settings(installed, settings) <==> {
            &&& installed is Some
            &&& installed->0.interval_seconds == settings.interval_seconds
            &&& installed->0.arguments.len() > 0
            &&& settings.mode == ScheduleMode::Scan ==> installed->0.arguments.skip(1) =~= seq![
                "scan"@,
            ]
            &&& settings.mode == ScheduleMode::Prune ==> installed->0.arguments.skip(1) =~= seq![
                "prune"@,
                "--yes"@,
            ]
        },
{
}

} // verus!
