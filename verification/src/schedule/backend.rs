//! The service manager, and changes to what is installed: all of a change, or none of it.
use crate::command;
use crate::command::{ProgramLine, ProgramLineView, Reply, ReplyView, Request, RequestView};
use crate::filepath::FilePath;
use crate::flow;
use crate::flow::{Flow, Step};
use crate::launch_agent::{LABEL, SchedulePaths, SchedulePathsView};
use crate::schedule::error;
use crate::schedule::error::{ScheduleError, ScheduleErrorView};
use crate::schedule::steps;
use crate::schedule::steps::SETTINGS_MODE;
use crate::schedule::steps::{CommandOutputView, LAUNCHCTL_TIMEOUT, LAUNCH_AGENT_MODE};
use crate::text;
use vstd::prelude::*;
use vstd::utf8::*;

verus! {

/// The service manager, for the current user.
#[derive(Debug, PartialEq, Eq)]
pub struct MacOsBackend {
    pub launchctl: FilePath,
    pub domain: String,
    pub launch_agent: FilePath,
    pub log_directory: FilePath,
}

/// The content of a [`MacOsBackend`].
pub struct MacOsBackendView {
    pub launchctl: Seq<u8>,
    pub domain: Seq<char>,
    pub launch_agent: Seq<u8>,
    pub log_directory: Seq<u8>,
}

impl DeepView for MacOsBackend {
    type V = MacOsBackendView;

    open spec fn deep_view(&self) -> MacOsBackendView {
        MacOsBackendView {
            launchctl: self.launchctl@,
            domain: self.domain@,
            launch_agent: self.launch_agent@,
            log_directory: self.log_directory@,
        }
    }
}

/// The command that prints the number of the current user.
pub open spec fn user_line() -> ProgramLineView {
    steps::program_line(encode_utf8("/usr/bin/id"@), seq!["-u"@], Seq::empty(), LAUNCHCTL_TIMEOUT)
}

/// The service manager for the user whose number was printed.
pub open spec fn user_backend(paths: SchedulePathsView, output: CommandOutputView) -> Result<
    MacOsBackendView,
    ScheduleErrorView,
> {
    let uid = text::trimmed(text::lossy_text(output.stdout));
    if !command::succeeded(output.code) {
        Err(ScheduleErrorView::UserId(steps::stderr_text(output.stderr)))
    } else if uid.len() == 0 || !text::all_digits(uid) {
        Err(ScheduleErrorView::UserId(uid))
    } else {
        Ok(
            MacOsBackendView {
                launchctl: encode_utf8("/bin/launchctl"@),
                domain: "gui/"@ + uid,
                launch_agent: paths.launch_agent,
                log_directory: paths.log_directory,
            },
        )
    }
}

/// The finding of the service manager for the current user.
pub open spec fn system_flow(paths: SchedulePathsView, replies: Seq<ReplyView>, at: int) -> Flow<
    Result<MacOsBackendView, ScheduleErrorView>,
> {
    match steps::output_flow(user_line(), replies, at) {
        Flow::Ask(request) => Flow::Ask(request),
        Flow::Done(Err(error), next) => Flow::Done(Err(error), next),
        Flow::Done(Ok(output), next) => Flow::Done(user_backend(paths, output), next),
    }
}

fn is_number(text: &str) -> (result: bool)
    ensures
        result == (text@.len() > 0 && text::all_digits(text@)),
{
    let chars = text::to_chars(text);
    let mut i: usize = 0;
    while i < chars.len()
        invariant
            i <= chars.len(),
            chars@ == text@,
            forall|j: int| 0 <= j < i ==> '0' <= #[trigger] chars[j] <= '9',
        decreases chars.len() - i,
    {
        if chars[i] < '0' || chars[i] > '9' {
            assert(!('0' <= text@[i as int] <= '9'));
            return false;
        }
        i += 1;
    }
    chars.len() > 0
}

/// What `launchctl` is told to load the LaunchAgent.
pub open spec fn bootstrap_line(backend: MacOsBackendView) -> ProgramLineView {
    steps::program_line(
        backend.launchctl,
        seq!["bootstrap"@, backend.domain, text::lossy_text(backend.launch_agent)],
        Seq::empty(),
        LAUNCHCTL_TIMEOUT,
    )
}

/// What `launchctl` is told to unload the LaunchAgent.
pub open spec fn bootout_line(backend: MacOsBackendView) -> ProgramLineView {
    steps::program_line(
        backend.launchctl,
        seq!["bootout"@, backend.domain + "/"@ + LABEL@],
        Seq::empty(),
        LAUNCHCTL_TIMEOUT,
    )
}

/// What `launchctl` is told to find out whether the LaunchAgent is loaded.
pub open spec fn print_line(backend: MacOsBackendView) -> ProgramLineView {
    steps::program_line(
        backend.launchctl,
        seq!["print"@, backend.domain + "/"@ + LABEL@],
        Seq::empty(),
        LAUNCHCTL_TIMEOUT,
    )
}

/// The finding out whether the LaunchAgent is loaded.
pub open spec fn loaded_flow(backend: MacOsBackendView, replies: Seq<ReplyView>, at: int) -> Flow<
    Result<bool, ScheduleErrorView>,
> {
    match steps::output_flow(print_line(backend), replies, at) {
        Flow::Ask(request) => Flow::Ask(request),
        Flow::Done(Err(error), next) => Flow::Done(Err(error), next),
        Flow::Done(Ok(output), next) => Flow::Done(Ok(command::succeeded(output.code)), next),
    }
}

/// A command of the service manager that has to succeed.
pub open spec fn launchctl_flow(
    action: Seq<char>,
    line: ProgramLineView,
    replies: Seq<ReplyView>,
    at: int,
) -> Flow<Result<(), ScheduleErrorView>> {
    match steps::output_flow(line, replies, at) {
        Flow::Ask(request) => Flow::Ask(request),
        Flow::Done(Err(error), next) => Flow::Done(Err(error), next),
        Flow::Done(Ok(output), next) => Flow::Done(
            if command::succeeded(output.code) {
                Ok(())
            } else {
                Err(ScheduleErrorView::Launchctl { action, message: steps::stderr_text(output.stderr) })
            },
            next,
        ),
    }
}

fn run_launchctl(action: &str, line: ProgramLine, replies: &Vec<Reply>, at: usize) -> (step: Step<
    Result<(), ScheduleError>,
>)
    ensures
        flow::step_view(step) == launchctl_flow(
            action@,
            line.deep_view(),
            replies.deep_view(),
            at as int,
        ),
{
    match steps::command_output(line, replies, at) {
        Step::Ask(request) => Step::Ask(request),
        Step::Done(Err(error), next) => Step::Done(Err(error), next),
        Step::Done(Ok(output), next) => Step::Done(
            if command::is_success(output.code) {
                Ok(())
            } else {
                Err(
                    ScheduleError::Launchctl {
                        action: action.to_owned(),
                        message: steps::stderr_message(&output.stderr),
                    },
                )
            },
            next,
        ),
    }
}

impl MacOsBackend {
    /// Finds the service manager for the current user.
    pub fn system(paths: &SchedulePaths, replies: &Vec<Reply>, at: usize) -> (step: Step<
        Result<MacOsBackend, ScheduleError>,
    >)
        ensures
            flow::step_view(step) == system_flow(
                paths.deep_view(),
                replies.deep_view(),
                at as int,
            ),
    {
        let mut arguments = command::new_texts();
        text::push_text(&mut arguments, "-u");
        let program = FilePath::from_text("/usr/bin/id");
        let line = steps::new_program_line(
            &program,
            arguments,
            &steps::no_variables(),
            LAUNCHCTL_TIMEOUT,
        );
        assert(line.deep_view() == user_line());
        let (output, next) = match steps::command_output(line, replies, at) {
            Step::Ask(request) => return Step::Ask(request),
            Step::Done(Err(error), next) => return Step::Done(Err(error), next),
            Step::Done(Ok(output), next) => (output, next),
        };
        if !command::is_success(output.code) {
            return Step::Done(
                Err(ScheduleError::UserId(steps::stderr_message(&output.stderr))),
                next,
            );
        }
        let uid = text::trim(text::lossy(output.stdout.as_slice()).as_str());
        if !is_number(uid.as_str()) {
            return Step::Done(Err(ScheduleError::UserId(uid)), next);
        }
        Step::Done(
            Ok(
                MacOsBackend {
                    launchctl: FilePath::from_text("/bin/launchctl"),
                    domain: text::concat2("gui/", uid.as_str()),
                    launch_agent: paths.launch_agent.clone(),
                    log_directory: paths.log_directory.clone(),
                },
            ),
            next,
        )
    }

    fn target_line(&self, action: &str) -> (line: ProgramLine)
        ensures
            line.deep_view() == steps::program_line(
                self.deep_view().launchctl,
                seq![action@, self.deep_view().domain + "/"@ + LABEL@],
                Seq::empty(),
                LAUNCHCTL_TIMEOUT,
            ),
    {
        let target = text::concat3(self.domain.as_str(), "/", LABEL);
        let arguments = command::texts2(action, target.as_str());
        steps::new_program_line(
            &self.launchctl,
            arguments,
            &steps::no_variables(),
            LAUNCHCTL_TIMEOUT,
        )
    }

    /// Finds out whether the LaunchAgent is loaded.
    pub fn is_loaded(&self, replies: &Vec<Reply>, at: usize) -> (step: Step<
        Result<bool, ScheduleError>,
    >)
        ensures
            flow::step_view(step) == loaded_flow(self.deep_view(), replies.deep_view(), at as int),
    {
        match steps::command_output(self.target_line("print"), replies, at) {
            Step::Ask(request) => Step::Ask(request),
            Step::Done(Err(error), next) => Step::Done(Err(error), next),
            Step::Done(Ok(output), next) => Step::Done(Ok(command::is_success(output.code)), next),
        }
    }

    /// Loads the LaunchAgent.
    pub fn bootstrap(&self, replies: &Vec<Reply>, at: usize) -> (step: Step<
        Result<(), ScheduleError>,
    >)
        ensures
            flow::step_view(step) == launchctl_flow(
                "bootstrap"@,
                bootstrap_line(self.deep_view()),
                replies.deep_view(),
                at as int,
            ),
    {
        let path = self.launch_agent.display();
        let mut arguments = command::texts2("bootstrap", self.domain.as_str());
        text::push_text(&mut arguments, path.as_str());
        let line = steps::new_program_line(
            &self.launchctl,
            arguments,
            &steps::no_variables(),
            LAUNCHCTL_TIMEOUT,
        );
        assert(line.deep_view().arguments =~= bootstrap_line(self.deep_view()).arguments);
        run_launchctl("bootstrap", line, replies, at)
    }

    /// Unloads the LaunchAgent.
    pub fn bootout(
        &self,
        replies: &Vec<Reply>,
        at: usize,
    ) -> (step: Step<Result<(), ScheduleError>>)
        ensures
            flow::step_view(step) == launchctl_flow(
                "bootout"@,
                bootout_line(self.deep_view()),
                replies.deep_view(),
                at as int,
            ),
    {
        run_launchctl("bootout", self.target_line("bootout"), replies, at)
    }
}

/// One change to a schedule.
#[derive(Debug, PartialEq, Eq)]
pub enum Action {
    /// The settings file gets these contents, or is removed.
    PutSettings(Option<Vec<u8>>),
    /// The LaunchAgent gets these contents, or is removed.
    PutAgent(Option<Vec<u8>>),
    /// The settings file would get the contents that it has had; but they could not be read, for
    /// the given reason.
    LostSettings(String),
    /// The LaunchAgent would get the contents that it has had; but they could not be read, for the
    /// given reason.
    LostAgent(String),
    /// The LaunchAgent is unloaded.
    Bootout,
    /// The LaunchAgent is loaded.
    Bootstrap,
}

/// The content of a [`Action`].
pub enum ActionView {
    PutSettings(Option<Seq<u8>>),
    PutAgent(Option<Seq<u8>>),
    LostSettings(Seq<char>),
    LostAgent(Seq<char>),
    Bootout,
    Bootstrap,
}

impl DeepView for Action {
    type V = ActionView;

    open spec fn deep_view(&self) -> ActionView {
        match self {
            Action::PutSettings(value) => ActionView::PutSettings(value.deep_view()),
            Action::PutAgent(value) => ActionView::PutAgent(value.deep_view()),
            Action::LostSettings(value) => ActionView::LostSettings(value@),
            Action::LostAgent(value) => ActionView::LostAgent(value@),
            Action::Bootout => ActionView::Bootout,
            Action::Bootstrap => ActionView::Bootstrap,
        }
    }
}

/// The replacing of a file, or its removal.
pub open spec fn put_flow(
    path: Seq<u8>,
    contents: Option<Seq<u8>>,
    mode: u32,
    process: u64,
    replies: Seq<ReplyView>,
    at: int,
) -> Flow<Result<(), ScheduleErrorView>> {
    match contents {
        None => steps::remove_flow(path, replies, at),
        Some(contents) => steps::write_flow(path, contents, mode, process, replies, at),
    }
}

fn put(
    path: &FilePath,
    contents: &Option<Vec<u8>>,
    mode: u32,
    process: u64,
    replies: &Vec<Reply>,
    at: usize,
) -> (step: Step<Result<(), ScheduleError>>)
    ensures
        flow::step_view(step) == put_flow(
            path@,
            contents.deep_view(),
            mode,
            process,
            replies.deep_view(),
            at as int,
        ),
{
    match contents {
        None => steps::remove_if_exists(path, replies, at),
        Some(contents) => {
            assert(contents.deep_view() =~= contents@);
            steps::write_atomic(path, contents, mode, process, replies, at)
        },
    }
}

/// The carrying out of one change.
pub open spec fn act_flow(
    backend: MacOsBackendView,
    settings: Seq<u8>,
    process: u64,
    action: ActionView,
    replies: Seq<ReplyView>,
    at: int,
) -> Flow<Result<(), ScheduleErrorView>> {
    match action {
        ActionView::PutSettings(contents) => put_flow(
            settings,
            contents,
            SETTINGS_MODE,
            process,
            replies,
            at,
        ),
        ActionView::PutAgent(contents) => put_flow(
            backend.launch_agent,
            contents,
            LAUNCH_AGENT_MODE,
            process,
            replies,
            at,
        ),
        ActionView::LostSettings(source) => Flow::Done(
            Err(ScheduleErrorView::ReadSettings { path: settings, source }),
            at,
        ),
        ActionView::LostAgent(source) => Flow::Done(
            Err(ScheduleErrorView::ReadLaunchAgent { path: backend.launch_agent, source }),
            at,
        ),
        ActionView::Bootout => launchctl_flow("bootout"@, bootout_line(backend), replies, at),
        ActionView::Bootstrap => launchctl_flow("bootstrap"@, bootstrap_line(backend), replies, at),
    }
}

fn act(
    backend: &MacOsBackend,
    settings: &FilePath,
    process: u64,
    action: &Action,
    replies: &Vec<Reply>,
    at: usize,
) -> (step: Step<Result<(), ScheduleError>>)
    ensures
        flow::step_view(step) == act_flow(
            backend.deep_view(),
            settings@,
            process,
            action.deep_view(),
            replies.deep_view(),
            at as int,
        ),
{
    match action {
        Action::PutSettings(contents) => put(
            settings,
            contents,
            SETTINGS_MODE,
            process,
            replies,
            at,
        ),
        Action::PutAgent(contents) => put(
            &backend.launch_agent,
            contents,
            LAUNCH_AGENT_MODE,
            process,
            replies,
            at,
        ),
        Action::LostSettings(source) => Step::Done(
            Err(ScheduleError::ReadSettings { path: settings.clone(), source: source.clone() }),
            at,
        ),
        Action::LostAgent(source) => Step::Done(
            Err(
                ScheduleError::ReadLaunchAgent {
                    path: backend.launch_agent.clone(),
                    source: source.clone(),
                },
            ),
            at,
        ),
        Action::Bootout => backend.bootout(replies, at),
        Action::Bootstrap => backend.bootstrap(replies, at),
    }
}

/// The carrying out of changes from the one number `i` on, up to the first that fails: how many
/// are done, and why the next one is not.
pub open spec fn acts_flow(
    backend: MacOsBackendView,
    settings: Seq<u8>,
    process: u64,
    actions: Seq<ActionView>,
    i: int,
    replies: Seq<ReplyView>,
    at: int,
) -> Flow<(int, Option<ScheduleErrorView>)>
    decreases actions.len() - i,
{
    if i >= actions.len() {
        Flow::Done((i, None), at)
    } else {
        match act_flow(backend, settings, process, actions[i], replies, at) {
            Flow::Ask(request) => Flow::Ask(request),
            Flow::Done(Err(error), next) => Flow::Done((i, Some(error)), next),
            Flow::Done(Ok(_), next) => acts_flow(
                backend,
                settings,
                process,
                actions,
                i + 1,
                replies,
                next,
            ),
        }
    }
}

/// The content of where the carrying out of changes stands.
pub open spec fn acts_view(step: Step<(usize, Option<ScheduleError>)>) -> Flow<
    (int, Option<ScheduleErrorView>),
> {
    match step {
        Step::Ask(request) => Flow::Ask(request.deep_view()),
        Step::Done((done, error), at) => Flow::Done((done as int, error.deep_view()), at as int),
    }
}

fn act_all(
    backend: &MacOsBackend,
    settings: &FilePath,
    process: u64,
    actions: &Vec<Action>,
    replies: &Vec<Reply>,
    at: usize,
) -> (step: Step<(usize, Option<ScheduleError>)>)
    ensures
        acts_view(step) == acts_flow(
            backend.deep_view(),
            settings@,
            process,
            actions.deep_view(),
            0,
            replies.deep_view(),
            at as int,
        ),
        step matches Step::Done((done, _), _) ==> done <= actions.len(),
{
    let ghost all = actions.deep_view();
    let mut next: usize = at;
    let mut i: usize = 0;
    while i < actions.len()
        invariant
            i <= actions.len(),
            all == actions.deep_view(),
            acts_flow(
                backend.deep_view(),
                settings@,
                process,
                all,
                0,
                replies.deep_view(),
                at as int,
            ) == acts_flow(
                backend.deep_view(),
                settings@,
                process,
                all,
                i as int,
                replies.deep_view(),
                next as int,
            ),
        decreases actions.len() - i,
    {
        assert(all[i as int] == actions[i as int].deep_view());
        match act(backend, settings, process, &actions[i], replies, next) {
            Step::Ask(request) => return Step::Ask(request),
            Step::Done(Err(error), after) => return Step::Done((i, Some(error)), after),
            Step::Done(Ok(_), after) => {
                next = after;
            },
        }
        i += 1;
    }
    Step::Done((i, None), next)
}

/// The carrying out of all changes from the one number `i` on, whatever becomes of them: the
/// messages of those that fail, behind `failures`.
pub open spec fn undo_flow(
    backend: MacOsBackendView,
    settings: Seq<u8>,
    process: u64,
    actions: Seq<ActionView>,
    i: int,
    failures: Seq<Seq<char>>,
    replies: Seq<ReplyView>,
    at: int,
) -> Flow<Seq<Seq<char>>>
    decreases actions.len() - i,
{
    if i >= actions.len() {
        Flow::Done(failures, at)
    } else {
        match act_flow(backend, settings, process, actions[i], replies, at) {
            Flow::Ask(request) => Flow::Ask(request),
            Flow::Done(Err(error), next) => undo_flow(
                backend,
                settings,
                process,
                actions,
                i + 1,
                failures.push(error::schedule_message(error)),
                replies,
                next,
            ),
            Flow::Done(Ok(_), next) => undo_flow(
                backend,
                settings,
                process,
                actions,
                i + 1,
                failures,
                replies,
                next,
            ),
        }
    }
}

fn undo_all(
    backend: &MacOsBackend,
    settings: &FilePath,
    process: u64,
    actions: &Vec<Action>,
    replies: &Vec<Reply>,
    at: usize,
) -> (step: Step<Vec<String>>)
    ensures
        step.deep_view() == undo_flow(
            backend.deep_view(),
            settings@,
            process,
            actions.deep_view(),
            0,
            Seq::empty(),
            replies.deep_view(),
            at as int,
        ),
{
    let ghost all = actions.deep_view();
    let mut failures = command::new_texts();
    let mut next: usize = at;
    let mut i: usize = 0;
    while i < actions.len()
        invariant
            i <= actions.len(),
            all == actions.deep_view(),
            undo_flow(
                backend.deep_view(),
                settings@,
                process,
                all,
                0,
                Seq::empty(),
                replies.deep_view(),
                at as int,
            ) == undo_flow(
                backend.deep_view(),
                settings@,
                process,
                all,
                i as int,
                failures.deep_view(),
                replies.deep_view(),
                next as int,
            ),
        decreases actions.len() - i,
    {
        assert(all[i as int] == actions[i as int].deep_view());
        match act(backend, settings, process, &actions[i], replies, next) {
            Step::Ask(request) => return Step::Ask(request),
            Step::Done(Err(error), after) => {
                let message = error.message();
                text::push_text(&mut failures, message.as_str());
                next = after;
            },
            Step::Done(Ok(_), after) => {
                next = after;
            },
        }
        i += 1;
    }
    Step::Done(failures, next)
}

/// A schedule that takes the place of what was there before.
#[derive(Debug, PartialEq, Eq)]
pub struct Change {
    pub settings: Vec<u8>,
    pub agent: Vec<u8>,
    /// The settings file as it was, or why it could not be read.
    pub previous_settings: Result<Option<Vec<u8>>, String>,
    /// The LaunchAgent as it was, or why it could not be read.
    pub previous_agent: Result<Option<Vec<u8>>, String>,
    /// Whether what was there before is loaded.
    pub loaded: bool,
}

/// The content of a [`Change`].
pub struct ChangeView {
    pub settings: Seq<u8>,
    pub agent: Seq<u8>,
    pub previous_settings: Result<Option<Seq<u8>>, Seq<char>>,
    pub previous_agent: Result<Option<Seq<u8>>, Seq<char>>,
    pub loaded: bool,
}

impl DeepView for Change {
    type V = ChangeView;

    open spec fn deep_view(&self) -> ChangeView {
        ChangeView {
            settings: self.settings@,
            agent: self.agent@,
            previous_settings: flow::result_view(self.previous_settings),
            previous_agent: flow::result_view(self.previous_agent),
            loaded: self.loaded,
        }
    }
}

/// The changes that put a schedule in place.
pub open spec fn change_actions(change: ChangeView) -> Seq<ActionView> {
    if change.loaded {
        seq![
            ActionView::PutSettings(Some(change.settings)),
            ActionView::Bootout,
            ActionView::PutAgent(Some(change.agent)),
            ActionView::Bootstrap,
        ]
    } else {
        seq![
            ActionView::PutSettings(Some(change.settings)),
            ActionView::PutAgent(Some(change.agent)),
            ActionView::Bootstrap,
        ]
    }
}

/// What undoes a change.
pub open spec fn inverse_action(change: ChangeView, action: ActionView) -> ActionView {
    match action {
        ActionView::PutSettings(_) => match change.previous_settings {
            Ok(contents) => ActionView::PutSettings(contents),
            Err(source) => ActionView::LostSettings(source),
        },
        ActionView::PutAgent(_) => match change.previous_agent {
            Ok(contents) => ActionView::PutAgent(contents),
            Err(source) => ActionView::LostAgent(source),
        },
        ActionView::Bootout => ActionView::Bootstrap,
        ActionView::Bootstrap => ActionView::Bootout,
        action => action,
    }
}

/// What undoes the first `done` changes: the last one is undone first.
pub open spec fn undo_actions(change: ChangeView, done: int) -> Seq<ActionView> {
    Seq::new(
        done as nat,
        |i: int| inverse_action(change, change_actions(change)[done - 1 - i]),
    )
}

/// The error that is reported where changes failed and were undone with the given failures.
pub open spec fn undone_error(
    error: ScheduleErrorView,
    failures: Seq<Seq<char>>,
) -> ScheduleErrorView {
    if failures.len() == 0 {
        error
    } else {
        ScheduleErrorView::RollbackFailed { cause: error::schedule_message(error), failures }
    }
}

/// The putting in place of a schedule: all of it, or none of it.
pub open spec fn change_flow(
    backend: MacOsBackendView,
    settings: Seq<u8>,
    process: u64,
    change: ChangeView,
    replies: Seq<ReplyView>,
    at: int,
) -> Flow<Result<(), ScheduleErrorView>> {
    match acts_flow(backend, settings, process, change_actions(change), 0, replies, at) {
        Flow::Ask(request) => Flow::Ask(request),
        Flow::Done((_, None), next) => Flow::Done(Ok(()), next),
        Flow::Done((done, Some(error)), next) => match undo_flow(
            backend,
            settings,
            process,
            undo_actions(change, done),
            0,
            Seq::empty(),
            replies,
            next,
        ) {
            Flow::Ask(request) => Flow::Ask(request),
            Flow::Done(failures, next) => Flow::Done(Err(undone_error(error, failures)), next),
        },
    }
}

fn copy_contents(contents: &Option<Vec<u8>>) -> (copy: Option<Vec<u8>>)
    ensures
        copy.deep_view() == contents.deep_view(),
{
    match contents {
        None => None,
        Some(contents) => {
            let copy = text::clone_bytes(contents);
            assert(copy.deep_view() =~= contents.deep_view());
            Some(copy)
        },
    }
}

fn some_contents(contents: &Vec<u8>) -> (copy: Option<Vec<u8>>)
    ensures
        copy.deep_view() == Some(contents@),
{
    let copy = text::clone_bytes(contents);
    assert(copy.deep_view() =~= contents@);
    Some(copy)
}

fn push_action(actions: &mut Vec<Action>, action: Action)
    ensures
        final(actions).deep_view() == old(actions).deep_view().push(action.deep_view()),
{
    let ghost before = actions.deep_view();
    let ghost added = action.deep_view();
    actions.push(action);
    assert(actions.deep_view() =~= before.push(added));
}

fn new_change_actions(change: &Change) -> (actions: Vec<Action>)
    ensures
        actions.deep_view() == change_actions(change.deep_view()),
{
    let mut actions: Vec<Action> = Vec::new();
    assert(actions.deep_view() =~= Seq::empty());
    push_action(&mut actions, Action::PutSettings(some_contents(&change.settings)));
    if change.loaded {
        push_action(&mut actions, Action::Bootout);
    }
    push_action(&mut actions, Action::PutAgent(some_contents(&change.agent)));
    push_action(&mut actions, Action::Bootstrap);
    assert(actions.deep_view() =~= change_actions(change.deep_view()));
    actions
}

fn new_inverse_action(change: &Change, action: &Action) -> (inverse: Action)
    ensures
        inverse.deep_view() == inverse_action(change.deep_view(), action.deep_view()),
{
    match action {
        Action::PutSettings(_) => match &change.previous_settings {
            Ok(contents) => Action::PutSettings(copy_contents(contents)),
            Err(source) => Action::LostSettings(source.clone()),
        },
        Action::PutAgent(_) => match &change.previous_agent {
            Ok(contents) => Action::PutAgent(copy_contents(contents)),
            Err(source) => Action::LostAgent(source.clone()),
        },
        Action::LostSettings(source) => Action::LostSettings(source.clone()),
        Action::LostAgent(source) => Action::LostAgent(source.clone()),
        Action::Bootout => Action::Bootstrap,
        Action::Bootstrap => Action::Bootout,
    }
}

fn new_undo_actions(change: &Change, actions: &Vec<Action>, done: usize) -> (undo: Vec<Action>)
    requires
        done <= actions.len(),
        actions.deep_view() == change_actions(change.deep_view()),
    ensures
        undo.deep_view() == undo_actions(change.deep_view(), done as int),
{
    let ghost all = actions.deep_view();
    let ghost goal = undo_actions(change.deep_view(), done as int);
    let mut undo: Vec<Action> = Vec::new();
    assert(undo.deep_view() =~= goal.take(0));
    let mut i: usize = 0;
    while i < done
        invariant
            i <= done <= actions.len(),
            all == actions.deep_view(),
            all == change_actions(change.deep_view()),
            goal == undo_actions(change.deep_view(), done as int),
            undo.deep_view() == goal.take(i as int),
        decreases done - i,
    {
        let k: usize = done - 1 - i;
        assert(all[k as int] == actions[k as int].deep_view());
        push_action(&mut undo, new_inverse_action(change, &actions[k]));
        assert(goal.take(i + 1) =~= goal.take(i as int).push(goal[i as int]));
        i += 1;
    }
    assert(goal.take(done as int) =~= goal);
    undo
}

/// Puts a schedule in place: all of it, or none of it.
pub fn apply_change(
    backend: &MacOsBackend,
    settings: &FilePath,
    process: u64,
    change: &Change,
    replies: &Vec<Reply>,
    at: usize,
) -> (step: Step<Result<(), ScheduleError>>)
    ensures
        flow::step_view(step) == change_flow(
            backend.deep_view(),
            settings@,
            process,
            change.deep_view(),
            replies.deep_view(),
            at as int,
        ),
{
    let actions = new_change_actions(change);
    let (done, error, next) = match act_all(backend, settings, process, &actions, replies, at) {
        Step::Ask(request) => return Step::Ask(request),
        Step::Done((_, None), next) => return Step::Done(Ok(()), next),
        Step::Done((done, Some(error)), next) => (done, error, next),
    };
    let undo = new_undo_actions(change, &actions, done);
    match undo_all(backend, settings, process, &undo, replies, next) {
        Step::Ask(request) => Step::Ask(request),
        Step::Done(failures, next) => {
            if failures.len() == 0 {
                Step::Done(Err(error), next)
            } else {
                let cause = error.message();
                Step::Done(Err(ScheduleError::RollbackFailed { cause, failures }), next)
            }
        },
    }
}

/// The installation of a schedule: what was there before is read first, so that it can be put
/// back. What cannot be read does not stop the installation; but it cannot be put back either.
pub open spec fn install_flow(
    backend: MacOsBackendView,
    settings: Seq<u8>,
    contents: Seq<u8>,
    agent: Seq<u8>,
    process: u64,
    replies: Seq<ReplyView>,
    at: int,
) -> Flow<Result<(), ScheduleErrorView>> {
    match steps::read_flow(settings, replies, at) {
        Flow::Ask(request) => Flow::Ask(request),
        Flow::Done(previous_settings, next) => match steps::read_flow(
            backend.launch_agent,
            replies,
            next,
        ) {
            Flow::Ask(request) => Flow::Ask(request),
            Flow::Done(previous_agent, next) => match loaded_flow(backend, replies, next) {
                Flow::Ask(request) => Flow::Ask(request),
                Flow::Done(Err(error), next) => Flow::Done(Err(error), next),
                Flow::Done(Ok(loaded), next) => match steps::stored_flow(
                    RequestView::CreateDirectories(backend.log_directory),
                    backend.log_directory,
                    replies,
                    next,
                ) {
                    Flow::Ask(request) => Flow::Ask(request),
                    Flow::Done(Err(error), next) => Flow::Done(Err(error), next),
                    Flow::Done(Ok(_), next) => change_flow(
                        backend,
                        settings,
                        process,
                        ChangeView {
                            settings: contents,
                            agent,
                            previous_settings,
                            previous_agent,
                            loaded,
                        },
                        replies,
                        next,
                    ),
                },
            },
        },
    }
}

/// The changes that take a schedule away: a LaunchAgent that is there is unloaded and removed, and
/// the settings are removed.
pub open spec fn uninstall_actions(agent: bool, loaded: bool) -> Seq<ActionView> {
    (if agent {
        (if loaded {
            seq![ActionView::Bootout]
        } else {
            Seq::empty()
        }) + seq![ActionView::PutAgent(None)]
    } else {
        Seq::empty()
    }) + seq![ActionView::PutSettings(None)]
}

/// The finding out whether a LaunchAgent that is there is loaded.
pub open spec fn agent_loaded_flow(
    backend: MacOsBackendView,
    agent: bool,
    replies: Seq<ReplyView>,
    at: int,
) -> Flow<Result<bool, ScheduleErrorView>> {
    if agent {
        loaded_flow(backend, replies, at)
    } else {
        Flow::Done(Ok(false), at)
    }
}

/// The taking away of a schedule.
pub open spec fn uninstall_flow(
    backend: MacOsBackendView,
    settings: Seq<u8>,
    agent: bool,
    process: u64,
    replies: Seq<ReplyView>,
    at: int,
) -> Flow<Result<(), ScheduleErrorView>> {
    match agent_loaded_flow(backend, agent, replies, at) {
        Flow::Ask(request) => Flow::Ask(request),
        Flow::Done(Err(error), next) => Flow::Done(Err(error), next),
        Flow::Done(Ok(loaded), next) => match acts_flow(
            backend,
            settings,
            process,
            uninstall_actions(agent, loaded),
            0,
            replies,
            next,
        ) {
            Flow::Ask(request) => Flow::Ask(request),
            Flow::Done((_, Some(error)), next) => Flow::Done(Err(error), next),
            Flow::Done((_, None), next) => Flow::Done(Ok(()), next),
        },
    }
}

fn new_uninstall_actions(agent: bool, loaded: bool) -> (actions: Vec<Action>)
    ensures
        actions.deep_view() == uninstall_actions(agent, loaded),
{
    let mut actions: Vec<Action> = Vec::new();
    assert(actions.deep_view() =~= Seq::empty());
    if agent {
        if loaded {
            push_action(&mut actions, Action::Bootout);
        }
        push_action(&mut actions, Action::PutAgent(None));
    }
    push_action(&mut actions, Action::PutSettings(None));
    assert(actions.deep_view() =~= uninstall_actions(agent, loaded));
    actions
}

impl MacOsBackend {
    /// Installs a schedule: the settings and the LaunchAgent are written and the LaunchAgent is
    /// loaded, or all of it is as before.
    pub fn install(
        &self,
        settings: &FilePath,
        contents: Vec<u8>,
        agent: Vec<u8>,
        process: u64,
        replies: &Vec<Reply>,
        at: usize,
    ) -> (step: Step<Result<(), ScheduleError>>)
        ensures
            flow::step_view(step) == install_flow(
                self.deep_view(),
                settings@,
                contents@,
                agent@,
                process,
                replies.deep_view(),
                at as int,
            ),
    {
        let (previous_settings, next) = match steps::read_file(settings, replies, at) {
            Step::Ask(request) => return Step::Ask(request),
            Step::Done(previous, next) => (previous, next),
        };
        let (previous_agent, next) = match steps::read_file(&self.launch_agent, replies, next) {
            Step::Ask(request) => return Step::Ask(request),
            Step::Done(previous, next) => (previous, next),
        };
        let (loaded, next) = match self.is_loaded(replies, next) {
            Step::Ask(request) => return Step::Ask(request),
            Step::Done(Err(error), next) => return Step::Done(Err(error), next),
            Step::Done(Ok(loaded), next) => (loaded, next),
        };
        let next = match steps::store(
            Request::CreateDirectories(self.log_directory.clone()),
            &self.log_directory,
            replies,
            next,
        ) {
            Step::Ask(request) => return Step::Ask(request),
            Step::Done(Err(error), next) => return Step::Done(Err(error), next),
            Step::Done(Ok(_), next) => next,
        };
        let change = Change {
            settings: contents,
            agent,
            previous_settings,
            previous_agent,
            loaded,
        };
        apply_change(self, settings, process, &change, replies, next)
    }

    /// Takes a schedule away, of which a LaunchAgent may be there.
    pub fn uninstall(
        &self,
        settings: &FilePath,
        agent: bool,
        process: u64,
        replies: &Vec<Reply>,
        at: usize,
    ) -> (step: Step<Result<(), ScheduleError>>)
        ensures
            flow::step_view(step) == uninstall_flow(
                self.deep_view(),
                settings@,
                agent,
                process,
                replies.deep_view(),
                at as int,
            ),
    {
        let checked = if agent {
            self.is_loaded(replies, at)
        } else {
            Step::Done(Ok(false), at)
        };
        let (loaded, next) = match checked {
            Step::Ask(request) => return Step::Ask(request),
            Step::Done(Err(error), next) => return Step::Done(Err(error), next),
            Step::Done(Ok(loaded), next) => (loaded, next),
        };
        let actions = new_uninstall_actions(agent, loaded);
        match act_all(self, settings, process, &actions, replies, next) {
            Step::Ask(request) => Step::Ask(request),
            Step::Done((_, Some(error)), next) => Step::Done(Err(error), next),
            Step::Done((_, None), next) => Step::Done(Ok(()), next),
        }
    }
}

/// What a schedule is made of outside the library.
pub struct Installation {
    pub settings: Option<Seq<u8>>,
    pub agent: Option<Seq<u8>>,
    pub loaded: bool,
}

/// An installation after a change that succeeded.
pub open spec fn changed(installation: Installation, action: ActionView) -> Installation {
    match action {
        ActionView::PutSettings(settings) => Installation { settings, ..installation },
        ActionView::PutAgent(agent) => Installation { agent, ..installation },
        ActionView::LostSettings(_) => installation,
        ActionView::LostAgent(_) => installation,
        ActionView::Bootout => Installation { loaded: false, ..installation },
        ActionView::Bootstrap => Installation { loaded: true, ..installation },
    }
}

/// An installation after changes that succeeded.
pub open spec fn all_changed(installation: Installation, actions: Seq<ActionView>) -> Installation
    decreases actions.len(),
{
    if actions.len() == 0 {
        installation
    } else {
        changed(all_changed(installation, actions.drop_last()), actions.last())
    }
}

/// Whether an installation is the one that a change takes the place of, as far as it could be
/// read.
pub open spec fn precedes(installation: Installation, change: ChangeView) -> bool {
    (change.previous_settings matches Ok(settings) ==> installation.settings == settings) && (
    change.previous_agent matches Ok(agent) ==> installation.agent == agent) && installation.loaded
        == change.loaded
}

/// Whether an action stands for contents that could not be read.
pub open spec fn is_lost(action: ActionView) -> bool {
    action is LostSettings || action is LostAgent
}

/// The changes that put a schedule in place leave its settings and its LaunchAgent there, and the
/// LaunchAgent loaded, whatever was there before.
pub proof fn law_changes_take_effect(installation: Installation, change: ChangeView)
    ensures
        all_changed(installation, change_actions(change)) == (Installation {
            settings: Some(change.settings),
            agent: Some(change.agent),
            loaded: true,
        }),
{
    reveal_with_fuel(all_changed, 5);
    let actions = change_actions(change);
    if change.loaded {
        assert(actions.drop_last() =~= seq![
            ActionView::PutSettings(Some(change.settings)),
            ActionView::Bootout,
            ActionView::PutAgent(Some(change.agent)),
        ]);
        assert(actions.drop_last().drop_last() =~= seq![
            ActionView::PutSettings(Some(change.settings)),
            ActionView::Bootout,
        ]);
        assert(actions.drop_last().drop_last().drop_last() =~= seq![
            ActionView::PutSettings(Some(change.settings)),
        ]);
    } else {
        assert(actions.drop_last() =~= seq![
            ActionView::PutSettings(Some(change.settings)),
            ActionView::PutAgent(Some(change.agent)),
        ]);
        assert(actions.drop_last().drop_last() =~= seq![
            ActionView::PutSettings(Some(change.settings)),
        ]);
    }
}

/// Wherever a change stops, undoing what was done brings back both previous files and whether the
/// LaunchAgent was loaded, as long as the files that were replaced could be read before.
pub proof fn law_undoing_restores_the_installation(
    installation: Installation,
    change: ChangeView,
    done: int,
)
    requires
        precedes(installation, change),
        0 <= done < change_actions(change).len(),
        forall|i: int| 0 <= i < done ==> !is_lost(#[trigger] undo_actions(change, done)[i]),
    ensures
        all_changed(
            all_changed(installation, change_actions(change).take(done)),
            undo_actions(change, done),
        ) == installation,
{
    let actions = change_actions(change);
    let middle = all_changed(installation, actions.take(done));
    let undo = undo_actions(change, done);
    reveal_with_fuel(all_changed, 5);
    if done > 0 {
        assert(undo[done - 1] == inverse_action(change, actions[0]));
        assert(change.previous_settings is Ok);
    }
    if done > 1 {
        assert(undo[0] == inverse_action(change, actions[done - 1]));
        assert(undo[1] == inverse_action(change, actions[done - 2]));
    }
    if done == 0 {
        assert(actions.take(0) =~= Seq::empty());
        assert(undo =~= Seq::empty());
    } else if done == 1 {
        assert(actions.take(1) =~= seq![actions[0]]);
        assert(actions.take(1).drop_last() =~= Seq::empty());
        assert(undo =~= seq![inverse_action(change, actions[0])]);
        assert(undo.drop_last() =~= Seq::empty());
    } else if done == 2 {
        assert(actions.take(2) =~= seq![actions[0], actions[1]]);
        assert(actions.take(2).drop_last() =~= seq![actions[0]]);
        assert(seq![actions[0]].drop_last() =~= Seq::empty());
        assert(undo =~= seq![
            inverse_action(change, actions[1]),
            inverse_action(change, actions[0]),
        ]);
        assert(undo.drop_last() =~= seq![inverse_action(change, actions[1])]);
        assert(undo.drop_last().drop_last() =~= Seq::empty());
    } else {
        assert(actions.take(3) =~= seq![actions[0], actions[1], actions[2]]);
        assert(actions.take(3).drop_last() =~= seq![actions[0], actions[1]]);
        assert(seq![actions[0], actions[1]].drop_last() =~= seq![actions[0]]);
        assert(seq![actions[0]].drop_last() =~= Seq::empty());
        assert(undo =~= seq![
            inverse_action(change, actions[2]),
            inverse_action(change, actions[1]),
            inverse_action(change, actions[0]),
        ]);
        assert(undo.drop_last() =~= seq![
            inverse_action(change, actions[2]),
            inverse_action(change, actions[1]),
        ]);
        assert(undo.drop_last().drop_last() =~= seq![inverse_action(change, actions[2])]);
        assert(undo.drop_last().drop_last().drop_last() =~= Seq::empty());
    }
}

/// Carried out changes stop at the first that fails, and only there.
pub proof fn law_changes_stop_at_the_first_failure(
    backend: MacOsBackendView,
    settings: Seq<u8>,
    process: u64,
    actions: Seq<ActionView>,
    i: int,
    replies: Seq<ReplyView>,
    at: int,
)
    requires
        0 <= i <= actions.len(),
    ensures
        acts_flow(backend, settings, process, actions, i, replies, at) matches Flow::Done(
            (done, error),
            _,
        ) ==> i <= done <= actions.len() && (error is None <==> done == actions.len()),
    decreases actions.len() - i,
{
    if i < actions.len() {
        match act_flow(backend, settings, process, actions[i], replies, at) {
            Flow::Done(Ok(_), next) => {
                law_changes_stop_at_the_first_failure(
                    backend,
                    settings,
                    process,
                    actions,
                    i + 1,
                    replies,
                    next,
                );
            },
            _ => {},
        }
    }
}

proof fn lemma_undo_reports(
    backend: MacOsBackendView,
    settings: Seq<u8>,
    process: u64,
    actions: Seq<ActionView>,
    i: int,
    failures: Seq<Seq<char>>,
    replies: Seq<ReplyView>,
    at: int,
)
    ensures
        undo_flow(backend, settings, process, actions, i, failures, replies, at) matches Flow::Done(
            reported,
            _,
        ) ==> failures.len() <= reported.len(),
    decreases actions.len() - i,
{
    if i < actions.len() {
        match act_flow(backend, settings, process, actions[i], replies, at) {
            Flow::Ask(_) => {},
            Flow::Done(Err(error), next) => {
                lemma_undo_reports(
                    backend,
                    settings,
                    process,
                    actions,
                    i + 1,
                    failures.push(error::schedule_message(error)),
                    replies,
                    next,
                );
            },
            Flow::Done(Ok(_), next) => {
                lemma_undo_reports(
                    backend,
                    settings,
                    process,
                    actions,
                    i + 1,
                    failures,
                    replies,
                    next,
                );
            },
        }
    }
}

/// An undoing that reports no failure has carried out every change.
pub proof fn law_quiet_undoing_is_complete(
    backend: MacOsBackendView,
    settings: Seq<u8>,
    process: u64,
    actions: Seq<ActionView>,
    i: int,
    replies: Seq<ReplyView>,
    at: int,
)
    requires
        0 <= i <= actions.len(),
    ensures
        undo_flow(
            backend,
            settings,
            process,
            actions,
            i,
            Seq::empty(),
            replies,
            at,
        ) matches Flow::Done(failures, next) ==> (failures.len() == 0 ==> acts_flow(
            backend,
            settings,
            process,
            actions,
            i,
            replies,
            at,
        ) == Flow::<(int, Option<ScheduleErrorView>)>::Done((actions.len() as int, None), next)),
    decreases actions.len() - i,
{
    if i < actions.len() {
        match act_flow(backend, settings, process, actions[i], replies, at) {
            Flow::Ask(_) => {},
            Flow::Done(Err(error), next) => {
                lemma_undo_reports(
                    backend,
                    settings,
                    process,
                    actions,
                    i + 1,
                    Seq::empty().push(error::schedule_message(error)),
                    replies,
                    next,
                );
            },
            Flow::Done(Ok(_), next) => {
                law_quiet_undoing_is_complete(
                    backend,
                    settings,
                    process,
                    actions,
                    i + 1,
                    replies,
                    next,
                );
            },
        }
    }
}

proof fn lemma_complete_acts_lose_nothing(
    backend: MacOsBackendView,
    settings: Seq<u8>,
    process: u64,
    actions: Seq<ActionView>,
    i: int,
    replies: Seq<ReplyView>,
    at: int,
)
    requires
        0 <= i <= actions.len(),
        acts_flow(backend, settings, process, actions, i, replies, at) matches Flow::Done(
            (_, None),
            _,
        ),
    ensures
        forall|k: int| i <= k < actions.len() ==> !is_lost(#[trigger] actions[k]),
    decreases actions.len() - i,
{
    if i < actions.len() {
        if let Flow::Done(Ok(_), next) = act_flow(
            backend,
            settings,
            process,
            actions[i],
            replies,
            at,
        ) {
            lemma_complete_acts_lose_nothing(
                backend,
                settings,
                process,
                actions,
                i + 1,
                replies,
                next,
            );
        }
    }
}

/// Settings and LaunchAgent are changed together. A change that succeeds was carried out as a
/// whole. One that fails, and does not report that restoring failed too, was carried out up to
/// some point and then undone from there, which brings the installation back to what it was.
pub proof fn law_changes_are_transactions(
    backend: MacOsBackendView,
    settings: Seq<u8>,
    process: u64,
    change: ChangeView,
    installation: Installation,
    replies: Seq<ReplyView>,
    at: int,
)
    requires
        precedes(installation, change),
    ensures
        change_flow(backend, settings, process, change, replies, at) matches Flow::Done(Ok(_), _)
            ==> exists|next: int|
            #![auto]
            acts_flow(backend, settings, process, change_actions(change), 0, replies, at)
                == Flow::<(int, Option<ScheduleErrorView>)>::Done(
                (change_actions(change).len() as int, None),
                next,
            ),
        change_flow(backend, settings, process, change, replies, at) matches Flow::Done(
            Err(error),
            _,
        ) ==> error is RollbackFailed || exists|done: int, cause: ScheduleErrorView, next: int, end: int|
            #![auto]
            0 <= done < change_actions(change).len() && acts_flow(
                backend,
                settings,
                process,
                change_actions(change),
                0,
                replies,
                at,
            ) == Flow::<(int, Option<ScheduleErrorView>)>::Done((done, Some(cause)), next)
                && acts_flow(
                backend,
                settings,
                process,
                undo_actions(change, done),
                0,
                replies,
                next,
            ) == Flow::<(int, Option<ScheduleErrorView>)>::Done(
                (undo_actions(change, done).len() as int, None),
                end,
            ) && all_changed(
                all_changed(installation, change_actions(change).take(done)),
                undo_actions(change, done),
            ) == installation,
{
    let actions = change_actions(change);
    law_changes_stop_at_the_first_failure(backend, settings, process, actions, 0, replies, at);
    match acts_flow(backend, settings, process, actions, 0, replies, at) {
        Flow::Done((done, Some(cause)), next) => {
            law_quiet_undoing_is_complete(
                backend,
                settings,
                process,
                undo_actions(change, done),
                0,
                replies,
                next,
            );
            if let Flow::Done((_, None), _) = acts_flow(
                backend,
                settings,
                process,
                undo_actions(change, done),
                0,
                replies,
                next,
            ) {
                lemma_complete_acts_lose_nothing(
                    backend,
                    settings,
                    process,
                    undo_actions(change, done),
                    0,
                    replies,
                    next,
                );
                law_undoing_restores_the_installation(installation, change, done);
            }
        },
        _ => {},
    }
}

/// Taking a schedule away removes the LaunchAgent and the settings, and leaves nothing loaded that
/// was loaded from a LaunchAgent which was there.
pub proof fn law_uninstalling_leaves_nothing(installation: Installation)
    ensures
        all_changed(
            installation,
            uninstall_actions(installation.agent is Some, installation.loaded),
        ) == (Installation {
            settings: None,
            agent: None,
            loaded: installation.loaded && installation.agent is None,
        }),
{
    reveal_with_fuel(all_changed, 4);
    let actions = uninstall_actions(installation.agent is Some, installation.loaded);
    if installation.agent is Some {
        if installation.loaded {
            assert(actions =~= seq![
                ActionView::Bootout,
                ActionView::PutAgent(None),
                ActionView::PutSettings(None),
            ]);
            assert(actions.drop_last() =~= seq![ActionView::Bootout, ActionView::PutAgent(None)]);
            assert(actions.drop_last().drop_last() =~= seq![ActionView::Bootout]);
        } else {
            assert(actions =~= seq![ActionView::PutAgent(None), ActionView::PutSettings(None)]);
            assert(actions.drop_last() =~= seq![ActionView::PutAgent(None)]);
        }
    } else {
        assert(actions =~= seq![ActionView::PutSettings(None)]);
    }
}

/// Installing and uninstalling are safe to repeat: a second time changes nothing.
pub proof fn law_repeating_changes_nothing(installation: Installation, change: ChangeView)
    ensures
        ({
            let once = all_changed(installation, change_actions(change));
            let again = ChangeView {
                previous_settings: Ok(once.settings),
                previous_agent: Ok(once.agent),
                loaded: once.loaded,
                ..change
            };
            all_changed(once, change_actions(again)) == once
        }),
        ({
            let once = all_changed(
                installation,
                uninstall_actions(installation.agent is Some, installation.loaded),
            );
            all_changed(once, uninstall_actions(once.agent is Some, once.loaded)) == once
        }),
{
    law_changes_take_effect(installation, change);
    let once = all_changed(installation, change_actions(change));
    let again = ChangeView {
        previous_settings: Ok(once.settings),
        previous_agent: Ok(once.agent),
        loaded: once.loaded,
        ..change
    };
    law_changes_take_effect(once, again);
    law_uninstalling_leaves_nothing(installation);
    let gone = all_changed(
        installation,
        uninstall_actions(installation.agent is Some, installation.loaded),
    );
    law_uninstalling_leaves_nothing(gone);
}

} // verus!
