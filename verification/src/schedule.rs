//! Scheduled runs: a LaunchAgent is installed, looked at, changed and taken away.
pub mod backend;
pub mod environment;
pub mod error;
pub mod installing;
pub mod laws;
pub mod model;
pub mod preflight;
pub mod steps;
pub mod world;

use crate::cli::ScheduleCommand;
use crate::command;
use crate::command::{Reply, ReplyView, Request, RequestView};
use crate::config;
use crate::config::{Config, ConfigView};
use crate::discovery;
use crate::discovery::{Discoverer, DiscovererView, Discovery, DiscoveryView};
use crate::filepath;
use crate::filepath::{FilePath, ShownPath, ShownPathView};
use crate::flow;
use crate::flow::{Flow, Step};
use crate::launch_agent;
use crate::launch_agent::{LABEL, ScheduleEnvironment, ScheduleEnvironmentView, ScheduleMode};
use crate::launch_agent::{SchedulePaths, SchedulePathsView, ScheduleSettings};
use crate::paths;
use crate::paths::{AppPaths, Environment, EnvironmentView};
use crate::schedule::backend::{MacOsBackend, MacOsBackendView};
pub use crate::schedule::error::{ScheduleError, ScheduleErrorView};
use crate::schedule::preflight::{PreflightFailure, PreflightFailureView};
use crate::schedule::steps::SETTINGS_MODE;
use crate::text;
use vstd::prelude::*;
use vstd::utf8::*;

verus! {

/// What a scheduling command finds around it.
#[derive(Debug, PartialEq, Eq)]
pub struct ScheduleContext {
    /// The name of the operating system.
    pub platform: String,
    /// Where files are kept.
    pub environment: Environment,
    /// The program that is running, or why that cannot be found out.
    pub executable: Result<FilePath, String>,
    /// The directories that programs are looked up in, as `PATH` lists them.
    pub search_path: Option<FilePath>,
    pub ssh_auth_sock: Option<ShownPath>,
    pub visual: Option<FilePath>,
    pub editor: Option<FilePath>,
    /// The number of this process, which keeps temporary files apart.
    pub process: u64,
}

/// The content of a [`ScheduleContext`].
pub struct ScheduleContextView {
    pub platform: Seq<char>,
    pub environment: EnvironmentView,
    pub executable: Result<Seq<u8>, Seq<char>>,
    pub search_path: Option<Seq<u8>>,
    pub ssh_auth_sock: Option<ShownPathView>,
    pub visual: Option<Seq<u8>>,
    pub editor: Option<Seq<u8>>,
    pub process: u64,
}

impl DeepView for ScheduleContext {
    type V = ScheduleContextView;

    open spec fn deep_view(&self) -> ScheduleContextView {
        ScheduleContextView {
            platform: self.platform@,
            environment: self.environment.deep_view(),
            executable: crate::flow::result_view(self.executable),
            search_path: self.search_path.deep_view(),
            ssh_auth_sock: self.ssh_auth_sock.deep_view(),
            visual: self.visual.deep_view(),
            editor: self.editor.deep_view(),
            process: self.process,
        }
    }
}

/// Whether schedules can be installed on a platform.
pub open spec fn supported(platform: Seq<char>) -> Result<(), ScheduleErrorView> {
    if platform == "macos"@ {
        Ok(())
    } else {
        Err(ScheduleErrorView::UnsupportedPlatform(platform))
    }
}

/// Checks that schedules can be installed on a platform.
pub fn ensure_supported_platform(platform: &str) -> (result: Result<(), ScheduleError>)
    ensures
        flow::result_view(result) == supported(platform@),
{
    if text::same_text(platform, "macos") {
        Ok(())
    } else {
        Err(ScheduleError::UnsupportedPlatform(platform.to_owned()))
    }
}

/// A variable of the environment; an empty one counts as unset.
pub open spec fn set_variable(value: Option<Seq<u8>>) -> Option<Seq<u8>> {
    match value {
        Some(value) if value.len() > 0 => Some(value),
        _ => None,
    }
}

pub(crate) fn variable_set(value: &Option<FilePath>) -> (variable: Option<FilePath>)
    ensures
        variable.deep_view() == set_variable(value.deep_view()),
{
    match value {
        Some(value) if value.bytes.len() > 0 => Some(value.clone()),
        _ => None,
    }
}

/// A variable of the environment that names a path; an empty one counts as unset.
pub open spec fn set_path(value: Option<ShownPathView>) -> Option<ShownPathView> {
    match value {
        Some(value) if value.path.len() > 0 => Some(value),
        _ => None,
    }
}

pub(crate) fn path_set(value: &Option<ShownPath>) -> (variable: Option<ShownPath>)
    ensures
        variable.deep_view() == set_path(value.deep_view()),
{
    match value {
        Some(value) if value.path.bytes.len() > 0 => Some(value.clone()),
        _ => None,
    }
}

/// Where the environment says that the files of a schedule are kept.
pub open spec fn schedule_paths(environment: EnvironmentView) -> Result<
    SchedulePathsView,
    ScheduleErrorView,
> {
    match set_variable(environment.home) {
        None => Err(ScheduleErrorView::MissingHome),
        Some(home) => {
            let config_home = match set_path(environment.xdg_config_home) {
                Some(value) => if filepath::absolute(value.path) {
                    Ok(value.path)
                } else {
                    Err(
                        ScheduleErrorView::RelativeXdgPath {
                            variable: "XDG_CONFIG_HOME"@,
                            value,
                        },
                    )
                },
                None => Ok(filepath::joined(home, encode_utf8(".config"@))),
            };
            match config_home {
                Err(error) => Err(error),
                Ok(config_home) => Ok(
                    SchedulePathsView {
                        settings: filepath::joined(
                            config_home,
                            encode_utf8("lop/schedule.toml"@),
                        ),
                        launch_agent: filepath::joined(
                            home,
                            encode_utf8("Library/LaunchAgents/org.nixos.lop.plist"@),
                        ),
                        log_directory: filepath::joined(
                            home,
                            encode_utf8("Library/Logs/org.nixos"@),
                        ),
                    },
                ),
            }
        },
    }
}

/// Where the environment says that the files of a schedule are kept. It is an error when no
/// usable home exists or an XDG path is relative.
pub fn resolve_schedule_paths(environment: &Environment) -> (result: Result<
    SchedulePaths,
    ScheduleError,
>)
    ensures
        flow::result_view(result) == schedule_paths(environment.deep_view()),
{
    let home = match variable_set(&environment.home) {
        None => return Err(ScheduleError::MissingHome),
        Some(home) => home,
    };
    let config_home = match path_set(&environment.xdg_config_home) {
        Some(value) => {
            if !value.path.is_absolute() {
                return Err(
                    ScheduleError::RelativeXdgPath {
                        variable: "XDG_CONFIG_HOME".to_owned(),
                        value,
                    },
                );
            }
            value.path
        },
        None => home.join_text(".config"),
    };
    Ok(
        SchedulePaths {
            settings: config_home.join_text("lop/schedule.toml"),
            launch_agent: home.join_text("Library/LaunchAgents/org.nixos.lop.plist"),
            log_directory: home.join_text("Library/Logs/org.nixos"),
        },
    )
}

/// What is done once it is known which repositories can be fetched.
#[derive(Debug, Clone, Copy, PartialEq, Eq, Structural)]
pub enum Goal {
    /// The schedule is installed.
    Install,
    /// The schedule is replaced by one with edited settings.
    Update,
    /// The state of the schedule is reported.
    Report,
}

impl DeepView for Goal {
    type V = Goal;

    open spec fn deep_view(&self) -> Goal {
        *self
    }
}

/// A scheduling command that waits for the search for repositories.
#[derive(Debug, PartialEq, Eq)]
pub struct Preparation {
    pub goal: Goal,
    pub settings: ScheduleSettings,
    pub allow_degraded: bool,
    pub paths: SchedulePaths,
    pub backend: MacOsBackend,
    pub environment: ScheduleEnvironment,
    pub config: Config,
}

/// The content of a [`Preparation`].
pub struct PreparationView {
    pub goal: Goal,
    pub settings: ScheduleSettings,
    pub allow_degraded: bool,
    pub paths: SchedulePathsView,
    pub backend: MacOsBackendView,
    pub environment: ScheduleEnvironmentView,
    pub config: ConfigView,
}

impl DeepView for Preparation {
    type V = PreparationView;

    open spec fn deep_view(&self) -> PreparationView {
        PreparationView {
            goal: self.goal,
            settings: self.settings,
            allow_degraded: self.allow_degraded,
            paths: self.paths.deep_view(),
            backend: self.backend.deep_view(),
            environment: self.environment.deep_view(),
            config: self.config.deep_view(),
        }
    }
}

/// What the beginning of a scheduling command leads to.
#[derive(Debug, PartialEq, Eq)]
pub enum Opening {
    /// All is done.
    Finished,
    /// Repositories are looked for.
    Search(Preparation),
}

/// The content of a [`Opening`].
pub enum OpeningView {
    Finished,
    Search(PreparationView),
}

impl DeepView for Opening {
    type V = OpeningView;

    open spec fn deep_view(&self) -> OpeningView {
        match self {
            Opening::Finished => OpeningView::Finished,
            Opening::Search(value) => OpeningView::Search(value.deep_view()),
        }
    }
}

/// The preparation of a schedule: what its runs find around them, and the configuration.
pub open spec fn prepare_flow(
    context: ScheduleContextView,
    replies: Seq<ReplyView>,
    at: int,
) -> Flow<
    Result<(ScheduleEnvironmentView, ConfigView), ScheduleErrorView>,
> {
    match environment::environment_flow(
        context.executable,
        context.search_path,
        context.ssh_auth_sock,
        replies,
        at,
    ) {
        Flow::Ask(request) => Flow::Ask(request),
        Flow::Done(Err(error), next) => Flow::Done(Err(error), next),
        Flow::Done(Ok(environment), next) => match paths::resolve_paths(context.environment) {
            Err(error) => Flow::Done(
                Err(ScheduleErrorView::Discovery(paths::path_message(error))),
                next,
            ),
            Ok(app_paths) => match config::load_flow(
                app_paths.config_file,
                context.environment.home,
                replies,
                next,
            ) {
                Flow::Ask(request) => Flow::Ask(request),
                Flow::Done(Err(error), next) => Flow::Done(
                    Err(ScheduleErrorView::Discovery(config::config_message(error))),
                    next,
                ),
                Flow::Done(Ok(config), next) => Flow::Done(Ok((environment, config)), next),
            },
        },
    }
}

/// The content of where the preparation of a schedule stands.
pub open spec fn prepare_view(
    step: Step<Result<(ScheduleEnvironment, Config), ScheduleError>>,
) -> Flow<Result<(ScheduleEnvironmentView, ConfigView), ScheduleErrorView>> {
    match step {
        Step::Ask(request) => Flow::Ask(request.deep_view()),
        Step::Done(Ok((environment, config)), at) => Flow::Done(
            Ok((environment.deep_view(), config.deep_view())),
            at as int,
        ),
        Step::Done(Err(error), at) => Flow::Done(Err(error.deep_view()), at as int),
    }
}

fn prepare(context: &ScheduleContext, replies: &Vec<Reply>, at: usize) -> (step: Step<
    Result<(ScheduleEnvironment, Config), ScheduleError>,
>)
    ensures
        prepare_view(step) == prepare_flow(context.deep_view(), replies.deep_view(), at as int),
{
    let (environment, next) = match environment::prepare_environment(context, replies, at) {
        Step::Ask(request) => return Step::Ask(request),
        Step::Done(Err(error), next) => return Step::Done(Err(error), next),
        Step::Done(Ok(environment), next) => (environment, next),
    };
    let app_paths = match AppPaths::from_env(&context.environment) {
        Err(error) => return Step::Done(Err(ScheduleError::Discovery(error.message())), next),
        Ok(app_paths) => app_paths,
    };
    match Config::load(&app_paths.config_file, &context.environment.home, replies, next) {
        Step::Ask(request) => Step::Ask(request),
        Step::Done(Err(error), next) => Step::Done(
            Err(ScheduleError::Discovery(error.message())),
            next,
        ),
        Step::Done(Ok(config), next) => Step::Done(Ok((environment, config)), next),
    }
}

/// The preparation of a schedule with the given settings, on the way to a goal.
pub open spec fn opening_flow(
    context: ScheduleContextView,
    goal: Goal,
    settings: ScheduleSettings,
    allow_degraded: bool,
    paths: SchedulePathsView,
    backend: MacOsBackendView,
    replies: Seq<ReplyView>,
    at: int,
) -> Flow<Result<OpeningView, ScheduleErrorView>> {
    match prepare_flow(context, replies, at) {
        Flow::Ask(request) => Flow::Ask(request),
        Flow::Done(Err(error), next) => Flow::Done(Err(error), next),
        Flow::Done(Ok((environment, config)), next) => Flow::Done(
            Ok(
                OpeningView::Search(
                    PreparationView {
                        goal,
                        settings,
                        allow_degraded,
                        paths,
                        backend,
                        environment,
                        config,
                    },
                ),
            ),
            next,
        ),
    }
}

fn open(
    context: &ScheduleContext,
    goal: Goal,
    settings: ScheduleSettings,
    allow_degraded: bool,
    paths: SchedulePaths,
    backend: MacOsBackend,
    replies: &Vec<Reply>,
    at: usize,
) -> (step: Step<Result<Opening, ScheduleError>>)
    ensures
        flow::step_view(step) == opening_flow(
            context.deep_view(),
            goal,
            settings,
            allow_degraded,
            paths.deep_view(),
            backend.deep_view(),
            replies.deep_view(),
            at as int,
        ),
{
    match prepare(context, replies, at) {
        Step::Ask(request) => Step::Ask(request),
        Step::Done(Err(error), next) => Step::Done(Err(error), next),
        Step::Done(Ok((environment, config)), next) => Step::Done(
            Ok(
                Opening::Search(
                    Preparation {
                        goal,
                        settings,
                        allow_degraded,
                        paths,
                        backend,
                        environment,
                        config,
                    },
                ),
            ),
            next,
        ),
    }
}

/// The settings with which a schedule is installed: those that are there, or the first ones.
pub open spec fn initial_settings_flow(path: Seq<u8>, replies: Seq<ReplyView>, at: int) -> Flow<
    Result<ScheduleSettings, ScheduleErrorView>,
> {
    match steps::found_flow(RequestView::Exists(path), replies, at) {
        Flow::Ask(request) => Flow::Ask(request),
        Flow::Done(false, next) => Flow::Done(Ok(launch_agent::default_settings()), next),
        Flow::Done(true, next) => steps::settings_flow(path, replies, next),
    }
}

/// The beginning of an installation.
pub open spec fn begin_install_flow(
    context: ScheduleContextView,
    allow_degraded: bool,
    paths: SchedulePathsView,
    backend: MacOsBackendView,
    replies: Seq<ReplyView>,
    at: int,
) -> Flow<Result<OpeningView, ScheduleErrorView>> {
    match initial_settings_flow(paths.settings, replies, at) {
        Flow::Ask(request) => Flow::Ask(request),
        Flow::Done(Err(error), next) => Flow::Done(Err(error), next),
        Flow::Done(Ok(settings), next) => opening_flow(
            context,
            Goal::Install,
            settings,
            allow_degraded,
            paths,
            backend,
            replies,
            next,
        ),
    }
}

/// Begins an installation.
pub fn begin_install(
    context: &ScheduleContext,
    allow_degraded: bool,
    paths: SchedulePaths,
    backend: MacOsBackend,
    replies: &Vec<Reply>,
    at: usize,
) -> (step: Step<Result<Opening, ScheduleError>>)
    ensures
        flow::step_view(step) == begin_install_flow(
            context.deep_view(),
            allow_degraded,
            paths.deep_view(),
            backend.deep_view(),
            replies.deep_view(),
            at as int,
        ),
{
    let (present, next) = match steps::is_found(
        Request::Exists(paths.settings.clone()),
        replies,
        at,
    ) {
        Step::Ask(request) => return Step::Ask(request),
        Step::Done(present, next) => (present, next),
    };
    let (settings, next) = if present {
        match steps::load_settings(&paths.settings, replies, next) {
            Step::Ask(request) => return Step::Ask(request),
            Step::Done(Err(error), next) => return Step::Done(Err(error), next),
            Step::Done(Ok(settings), next) => (settings, next),
        }
    } else {
        (ScheduleSettings::default(), next)
    };
    open(context, Goal::Install, settings, allow_degraded, paths, backend, replies, next)
}

/// The editor that is used.
pub open spec fn chosen_editor(context: ScheduleContextView) -> Option<Seq<u8>> {
    match set_variable(context.visual) {
        Some(editor) => Some(editor),
        None => set_variable(context.editor),
    }
}

fn choose_editor(context: &ScheduleContext) -> (editor: Option<FilePath>)
    ensures
        editor.deep_view() == chosen_editor(context.deep_view()),
{
    match variable_set(&context.visual) {
        Some(editor) => Some(editor),
        None => variable_set(&context.editor),
    }
}

/// The copy of the settings that is edited.
pub open spec fn edit_path(parent: Seq<u8>, process: u64) -> Seq<u8> {
    filepath::joined(
        parent,
        encode_utf8(".schedule.toml.edit-"@ + text::decimal_text(process as nat)),
    )
}

/// The running of an editor.
pub open spec fn editor_flow(
    editor: Seq<u8>,
    path: Seq<u8>,
    replies: Seq<ReplyView>,
    at: int,
) -> Flow<Result<(), ScheduleErrorView>> {
    if at >= replies.len() {
        Flow::Ask(RequestView::RunEditor { editor, path })
    } else {
        Flow::Done(
            match replies[at] {
                ReplyView::Edited(Ok(status)) => if status.success {
                    Ok(())
                } else {
                    Err(
                        ScheduleErrorView::EditorFailed {
                            editor: text::lossy_text(editor),
                            status: status.shown,
                        },
                    )
                },
                ReplyView::Edited(Err(source)) => Err(
                    ScheduleErrorView::Spawn { program: text::lossy_text(editor), source },
                ),
                _ => Err(
                    ScheduleErrorView::Spawn {
                        program: text::lossy_text(editor),
                        source: command::UNEXPECTED_REPLY@,
                    },
                ),
            },
            at + 1,
        )
    }
}

fn run_editor(editor: &FilePath, path: &FilePath, replies: &Vec<Reply>, at: usize) -> (step: Step<
    Result<(), ScheduleError>,
>)
    ensures
        flow::step_view(step) == editor_flow(editor@, path@, replies.deep_view(), at as int),
{
    if at >= replies.len() {
        return Step::Ask(Request::RunEditor { editor: editor.clone(), path: path.clone() });
    }
    assert(replies.deep_view()[at as int] == replies[at as int].deep_view());
    let result = match &replies[at] {
        Reply::Edited(Ok(status)) => if status.success {
            Ok(())
        } else {
            Err(
                ScheduleError::EditorFailed {
                    editor: editor.display(),
                    status: status.shown.clone(),
                },
            )
        },
        Reply::Edited(Err(source)) => Err(
            ScheduleError::Spawn { program: editor.display(), source: source.clone() },
        ),
        _ => Err(
            ScheduleError::Spawn {
                program: editor.display(),
                source: command::UNEXPECTED_REPLY.to_owned(),
            },
        ),
    };
    Step::Done(result, at + 1)
}

/// The editing of a copy of the settings: the edited ones. The copy is removed, whatever came of
/// it.
pub open spec fn edited_flow(
    editor: Seq<u8>,
    current: ScheduleSettings,
    path: Seq<u8>,
    process: u64,
    replies: Seq<ReplyView>,
    at: int,
) -> Flow<Result<ScheduleSettings, ScheduleErrorView>> {
    match steps::write_flow(
        path,
        encode_utf8(launch_agent::encoded_settings(current)),
        SETTINGS_MODE,
        process,
        replies,
        at,
    ) {
        Flow::Ask(request) => Flow::Ask(request),
        Flow::Done(Err(error), next) => Flow::Done(Err(error), next),
        Flow::Done(Ok(_), next) => match editor_flow(editor, path, replies, next) {
            Flow::Ask(request) => Flow::Ask(request),
            Flow::Done(Err(error), next) => match steps::remove_flow(path, replies, next) {
                Flow::Ask(request) => Flow::Ask(request),
                Flow::Done(_, next) => Flow::Done(Err(error), next),
            },
            Flow::Done(Ok(_), next) => match steps::settings_flow(path, replies, next) {
                Flow::Ask(request) => Flow::Ask(request),
                Flow::Done(edited, next) => match steps::remove_flow(path, replies, next) {
                    Flow::Ask(request) => Flow::Ask(request),
                    Flow::Done(_, next) => Flow::Done(edited, next),
                },
            },
        },
    }
}

fn edit_copy(
    editor: &FilePath,
    current: &ScheduleSettings,
    path: &FilePath,
    process: u64,
    replies: &Vec<Reply>,
    at: usize,
) -> (step: Step<Result<ScheduleSettings, ScheduleError>>)
    ensures
        flow::step_view(step) == edited_flow(
            editor@,
            *current,
            path@,
            process,
            replies.deep_view(),
            at as int,
        ),
{
    let contents = text::to_bytes(current.encode().as_str());
    let next = match steps::write_atomic(path, &contents, SETTINGS_MODE, process, replies, at) {
        Step::Ask(request) => return Step::Ask(request),
        Step::Done(Err(error), next) => return Step::Done(Err(error), next),
        Step::Done(Ok(_), next) => next,
    };
    let next = match run_editor(editor, path, replies, next) {
        Step::Ask(request) => return Step::Ask(request),
        Step::Done(Err(error), next) => {
            return match steps::remove_if_exists(path, replies, next) {
                Step::Ask(request) => Step::Ask(request),
                Step::Done(_, next) => Step::Done(Err(error), next),
            };
        },
        Step::Done(Ok(_), next) => next,
    };
    match steps::load_settings(path, replies, next) {
        Step::Ask(request) => Step::Ask(request),
        Step::Done(edited, next) => match steps::remove_if_exists(path, replies, next) {
            Step::Ask(request) => Step::Ask(request),
            Step::Done(_, next) => Step::Done(edited, next),
        },
    }
}

/// The finding out whether a schedule is installed: both its files have to be there.
pub open spec fn installed_flow(
    paths: SchedulePathsView,
    replies: Seq<ReplyView>,
    at: int,
) -> Flow<bool> {
    match steps::found_flow(RequestView::Exists(paths.settings), replies, at) {
        Flow::Ask(request) => Flow::Ask(request),
        Flow::Done(false, next) => Flow::Done(false, next),
        Flow::Done(true, next) => steps::found_flow(
            RequestView::Exists(paths.launch_agent),
            replies,
            next,
        ),
    }
}

/// The beginning of a change of the settings.
pub open spec fn begin_edit_flow(
    context: ScheduleContextView,
    allow_degraded: bool,
    paths: SchedulePathsView,
    backend: MacOsBackendView,
    replies: Seq<ReplyView>,
    at: int,
) -> Flow<Result<OpeningView, ScheduleErrorView>> {
    match installed_flow(paths, replies, at) {
        Flow::Ask(request) => Flow::Ask(request),
        Flow::Done(false, next) => Flow::Done(Err(ScheduleErrorView::NotInstalled), next),
        Flow::Done(true, next) => match steps::settings_flow(paths.settings, replies, next) {
            Flow::Ask(request) => Flow::Ask(request),
            Flow::Done(Err(error), next) => Flow::Done(Err(error), next),
            Flow::Done(Ok(current), next) => match chosen_editor(context) {
                None => Flow::Done(Err(ScheduleErrorView::MissingEditor), next),
                Some(editor) => match filepath::parent_path(paths.settings) {
                    None => Flow::Done(
                        Err(
                            ScheduleErrorView::Write {
                                path: paths.settings,
                                source: "settings path has no parent directory"@,
                            },
                        ),
                        next,
                    ),
                    Some(parent) => match edited_flow(
                        editor,
                        current,
                        edit_path(parent, context.process),
                        context.process,
                        replies,
                        next,
                    ) {
                        Flow::Ask(request) => Flow::Ask(request),
                        Flow::Done(Err(error), next) => Flow::Done(Err(error), next),
                        Flow::Done(Ok(edited), next) => opening_flow(
                            context,
                            Goal::Update,
                            edited,
                            allow_degraded,
                            paths,
                            backend,
                            replies,
                            next,
                        ),
                    },
                },
            },
        },
    }
}

fn is_installed(paths: &SchedulePaths, replies: &Vec<Reply>, at: usize) -> (step: Step<bool>)
    ensures
        step.deep_view() == installed_flow(paths.deep_view(), replies.deep_view(), at as int),
{
    match steps::is_found(Request::Exists(paths.settings.clone()), replies, at) {
        Step::Ask(request) => Step::Ask(request),
        Step::Done(present, next) => if present {
            steps::is_found(Request::Exists(paths.launch_agent.clone()), replies, next)
        } else {
            Step::Done(false, next)
        },
    }
}

/// Begins a change of the settings.
pub fn begin_edit(
    context: &ScheduleContext,
    allow_degraded: bool,
    paths: SchedulePaths,
    backend: MacOsBackend,
    replies: &Vec<Reply>,
    at: usize,
) -> (step: Step<Result<Opening, ScheduleError>>)
    ensures
        flow::step_view(step) == begin_edit_flow(
            context.deep_view(),
            allow_degraded,
            paths.deep_view(),
            backend.deep_view(),
            replies.deep_view(),
            at as int,
        ),
{
    let (installed, next) = match is_installed(&paths, replies, at) {
        Step::Ask(request) => return Step::Ask(request),
        Step::Done(installed, next) => (installed, next),
    };
    if !installed {
        return Step::Done(Err(ScheduleError::NotInstalled), next);
    }
    let (current, next) = match steps::load_settings(&paths.settings, replies, next) {
        Step::Ask(request) => return Step::Ask(request),
        Step::Done(Err(error), next) => return Step::Done(Err(error), next),
        Step::Done(Ok(current), next) => (current, next),
    };
    let editor = match choose_editor(context) {
        None => return Step::Done(Err(ScheduleError::MissingEditor), next),
        Some(editor) => editor,
    };
    let parent = match paths.settings.parent() {
        None => {
            return Step::Done(
                Err(
                    ScheduleError::Write {
                        path: paths.settings,
                        source: "settings path has no parent directory".to_owned(),
                    },
                ),
                next,
            );
        },
        Some(parent) => parent,
    };
    let number = text::decimal(context.process);
    let name = text::concat2(".schedule.toml.edit-", number.as_str());
    let path = parent.join_text(name.as_str());
    let (edited, next) = match edit_copy(
        &editor,
        &current,
        &path,
        context.process,
        replies,
        next,
    ) {
        Step::Ask(request) => return Step::Ask(request),
        Step::Done(Err(error), next) => return Step::Done(Err(error), next),
        Step::Done(Ok(edited), next) => (edited, next),
    };
    open(context, Goal::Update, edited, allow_degraded, paths, backend, replies, next)
}

/// The line that tells the settings of an installed schedule, and whether it is loaded.
pub open spec fn status_line(loaded: bool, settings: ScheduleSettings) -> Seq<char> {
    LABEL@ + (if loaded {
        " is installed and loaded; mode="@
    } else {
        " is installed and not loaded; mode="@
    }) + launch_agent::mode_label(settings.mode) + ", interval_seconds="@ + text::decimal_text(
        settings.interval_seconds as nat,
    )
}

/// The line that tells what is installed.
pub open spec fn installed_line(
    installed: Option<launch_agent::InstalledCommandView>,
) -> Seq<char> {
    match installed {
        None => "the installed LaunchAgent does not tell what it runs and how often"@,
        Some(installed) => "installed command: "@ + text::joined_text(installed.arguments, " "@)
            + "; interval_seconds="@ + text::decimal_text(installed.interval_seconds as nat),
    }
}

/// The line that tells whether what is installed does what the settings say.
pub open spec fn drift_line(
    installed: Option<launch_agent::InstalledCommandView>,
    settings: ScheduleSettings,
) -> Seq<char> {
    if launch_agent::matches_settings(installed, settings) {
        "settings and LaunchAgent agree"@
    } else if installed is None {
        "settings and LaunchAgent cannot be compared; run `lop schedule install` to repair the schedule"@
    } else {
        "settings and LaunchAgent have drifted apart; run `lop schedule install` to repair the schedule"@
    }
}

/// What a file that is there no more, or holds the given bytes, says that is run.
pub open spec fn told_command(contents: Option<Seq<u8>>) -> Option<
    launch_agent::InstalledCommandView,
> {
    match contents {
        None => None,
        Some(contents) => launch_agent::installed_command(text::lossy_text(contents)),
    }
}

/// The lines that tell the state of a schedule.
pub open spec fn status_lines(
    loaded: bool,
    contents: Option<Seq<u8>>,
    settings: ScheduleSettings,
) -> Seq<
    Seq<char>,
> {
    seq![
        status_line(loaded, settings),
        installed_line(told_command(contents)),
        drift_line(told_command(contents), settings),
    ]
}

/// The line that tells that it could not be found out which repositories can be fetched.
pub open spec fn incomplete_line(error: ScheduleErrorView) -> Seq<char> {
    "repository preflight could not be completed: "@ + error::schedule_message(error)
}

fn new_status_lines(
    loaded: bool,
    contents: &Option<Vec<u8>>,
    settings: &ScheduleSettings,
) -> (lines: Vec<
    String,
>)
    ensures
        lines.deep_view() == status_lines(loaded, contents.deep_view(), *settings),
{
    let installed = match contents {
        None => None,
        Some(contents) => {
            assert(contents.deep_view() =~= contents@);
            launch_agent::read_launch_agent(text::lossy(contents.as_slice()).as_str())
        },
    };
    let mut lines = command::new_texts();
    let interval = text::decimal(settings.interval_seconds);
    let state = if loaded {
        " is installed and loaded; mode="
    } else {
        " is installed and not loaded; mode="
    };
    let line = text::concat5(
        LABEL,
        state,
        settings.mode.label(),
        ", interval_seconds=",
        interval.as_str(),
    );
    text::push_text(&mut lines, line.as_str());
    let line = match &installed {
        None => "the installed LaunchAgent does not tell what it runs and how often".to_owned(),
        Some(installed) => {
            let command = text::join_texts(&installed.arguments, " ");
            let interval = text::decimal(installed.interval_seconds);
            text::concat4(
                "installed command: ",
                command.as_str(),
                "; interval_seconds=",
                interval.as_str(),
            )
        },
    };
    text::push_text(&mut lines, line.as_str());
    if launch_agent::is_in_step(&installed, settings) {
        text::push_text(&mut lines, "settings and LaunchAgent agree");
    } else if installed.is_none() {
        text::push_text(
            &mut lines,
            "settings and LaunchAgent cannot be compared; run `lop schedule install` to repair the schedule",
        );
    } else {
        text::push_text(
            &mut lines,
            "settings and LaunchAgent have drifted apart; run `lop schedule install` to repair the schedule",
        );
    }
    assert(lines.deep_view() =~= status_lines(loaded, contents.deep_view(), *settings));
    lines
}

/// The preparation of a report: where it fails, the report ends with that.
pub open spec fn report_flow(
    context: ScheduleContextView,
    settings: ScheduleSettings,
    paths: SchedulePathsView,
    backend: MacOsBackendView,
    replies: Seq<ReplyView>,
    at: int,
) -> Flow<Result<OpeningView, ScheduleErrorView>> {
    match opening_flow(context, Goal::Report, settings, false, paths, backend, replies, at) {
        Flow::Ask(request) => Flow::Ask(request),
        Flow::Done(Ok(opening), next) => Flow::Done(Ok(opening), next),
        Flow::Done(Err(error), next) => finish_flow(
            seq![incomplete_line(error)],
            replies,
            next,
        ),
    }
}

/// The writing of the last lines of a scheduling command.
pub open spec fn finish_flow(lines: Seq<Seq<char>>, replies: Seq<ReplyView>, at: int) -> Flow<
    Result<OpeningView, ScheduleErrorView>,
> {
    match steps::lines_flow(false, lines, 0, replies, at) {
        Flow::Ask(request) => Flow::Ask(request),
        Flow::Done(Err(error), next) => Flow::Done(Err(error), next),
        Flow::Done(Ok(_), next) => Flow::Done(Ok(OpeningView::Finished), next),
    }
}

fn finish_line(line: String, replies: &Vec<Reply>, at: usize) -> (step: Step<
    Result<Opening, ScheduleError>,
>)
    ensures
        flow::step_view(step) == finish_flow(seq![line@], replies.deep_view(), at as int),
{
    match steps::write_line(line, replies, at) {
        Step::Ask(request) => Step::Ask(request),
        Step::Done(Err(error), next) => Step::Done(Err(error), next),
        Step::Done(Ok(_), next) => Step::Done(Ok(Opening::Finished), next),
    }
}

/// The error of a schedule whose settings are gone.
pub open spec fn missing_settings(path: Seq<u8>) -> ScheduleErrorView {
    ScheduleErrorView::InvalidSettings {
        path,
        message: "settings are missing; run `lop schedule install` to repair the schedule"@,
    }
}

/// The beginning of a report on an installed schedule.
pub open spec fn status_flow(
    context: ScheduleContextView,
    paths: SchedulePathsView,
    backend: MacOsBackendView,
    replies: Seq<ReplyView>,
    at: int,
) -> Flow<Result<OpeningView, ScheduleErrorView>> {
    match steps::settings_flow(paths.settings, replies, at) {
        Flow::Ask(request) => Flow::Ask(request),
        Flow::Done(Err(error), next) => Flow::Done(Err(error), next),
        Flow::Done(Ok(settings), next) => match backend::loaded_flow(backend, replies, next) {
            Flow::Ask(request) => Flow::Ask(request),
            Flow::Done(Err(error), next) => Flow::Done(Err(error), next),
            Flow::Done(Ok(loaded), next) => match steps::read_flow(
                paths.launch_agent,
                replies,
                next,
            ) {
                Flow::Ask(request) => Flow::Ask(request),
                Flow::Done(Err(source), next) => Flow::Done(
                    Err(ScheduleErrorView::ReadLaunchAgent { path: paths.launch_agent, source }),
                    next,
                ),
                Flow::Done(Ok(contents), next) => match steps::lines_flow(
                    false,
                    status_lines(loaded, contents, settings),
                    0,
                    replies,
                    next,
                ) {
                    Flow::Ask(request) => Flow::Ask(request),
                    Flow::Done(Err(error), next) => Flow::Done(Err(error), next),
                    Flow::Done(Ok(_), next) => report_flow(
                        context,
                        settings,
                        paths,
                        backend,
                        replies,
                        next,
                    ),
                },
            },
        },
    }
}

/// The beginning of a report.
pub open spec fn begin_status_flow(
    context: ScheduleContextView,
    paths: SchedulePathsView,
    backend: MacOsBackendView,
    replies: Seq<ReplyView>,
    at: int,
) -> Flow<Result<OpeningView, ScheduleErrorView>> {
    match steps::found_flow(RequestView::Exists(paths.launch_agent), replies, at) {
        Flow::Ask(request) => Flow::Ask(request),
        Flow::Done(false, next) => finish_flow(
            seq![LABEL@ + " is not installed"@],
            replies,
            next,
        ),
        Flow::Done(true, next) => match steps::found_flow(
            RequestView::Exists(paths.settings),
            replies,
            next,
        ) {
            Flow::Ask(request) => Flow::Ask(request),
            Flow::Done(false, next) => Flow::Done(Err(missing_settings(paths.settings)), next),
            Flow::Done(true, next) => status_flow(context, paths, backend, replies, next),
        },
    }
}

fn status(
    context: &ScheduleContext,
    paths: SchedulePaths,
    backend: MacOsBackend,
    replies: &Vec<Reply>,
    at: usize,
) -> (step: Step<Result<Opening, ScheduleError>>)
    ensures
        flow::step_view(step) == status_flow(
            context.deep_view(),
            paths.deep_view(),
            backend.deep_view(),
            replies.deep_view(),
            at as int,
        ),
{
    let (settings, next) = match steps::load_settings(&paths.settings, replies, at) {
        Step::Ask(request) => return Step::Ask(request),
        Step::Done(Err(error), next) => return Step::Done(Err(error), next),
        Step::Done(Ok(settings), next) => (settings, next),
    };
    let (loaded, next) = match backend.is_loaded(replies, next) {
        Step::Ask(request) => return Step::Ask(request),
        Step::Done(Err(error), next) => return Step::Done(Err(error), next),
        Step::Done(Ok(loaded), next) => (loaded, next),
    };
    let (contents, next) = match steps::read_file(&paths.launch_agent, replies, next) {
        Step::Ask(request) => return Step::Ask(request),
        Step::Done(Err(source), next) => {
            return Step::Done(
                Err(ScheduleError::ReadLaunchAgent { path: paths.launch_agent, source }),
                next,
            );
        },
        Step::Done(Ok(contents), next) => (contents, next),
    };
    let lines = new_status_lines(loaded, &contents, &settings);
    let next = match steps::write_lines(false, &lines, replies, next) {
        Step::Ask(request) => return Step::Ask(request),
        Step::Done(Err(error), next) => return Step::Done(Err(error), next),
        Step::Done(Ok(_), next) => next,
    };
    match open(context, Goal::Report, settings, false, paths, backend, replies, next) {
        Step::Ask(request) => Step::Ask(request),
        Step::Done(Ok(opening), next) => Step::Done(Ok(opening), next),
        Step::Done(Err(error), next) => {
            let message = error.message();
            finish_line(
                text::concat2("repository preflight could not be completed: ", message.as_str()),
                replies,
                next,
            )
        },
    }
}

/// Begins a report.
pub fn begin_status(
    context: &ScheduleContext,
    paths: SchedulePaths,
    backend: MacOsBackend,
    replies: &Vec<Reply>,
    at: usize,
) -> (step: Step<Result<Opening, ScheduleError>>)
    ensures
        flow::step_view(step) == begin_status_flow(
            context.deep_view(),
            paths.deep_view(),
            backend.deep_view(),
            replies.deep_view(),
            at as int,
        ),
{
    let (agent, next) = match steps::is_found(
        Request::Exists(paths.launch_agent.clone()),
        replies,
        at,
    ) {
        Step::Ask(request) => return Step::Ask(request),
        Step::Done(agent, next) => (agent, next),
    };
    if !agent {
        return finish_line(text::concat2(LABEL, " is not installed"), replies, next);
    }
    let (present, next) = match steps::is_found(
        Request::Exists(paths.settings.clone()),
        replies,
        next,
    ) {
        Step::Ask(request) => return Step::Ask(request),
        Step::Done(present, next) => (present, next),
    };
    if !present {
        let error = ScheduleError::InvalidSettings {
            path: paths.settings,
            message: "settings are missing; run `lop schedule install` to repair the schedule".to_owned(),
        };
        return Step::Done(Err(error), next);
    }
    status(context, paths, backend, replies, next)
}

/// The line that tells that a schedule was taken away.
pub open spec fn uninstalled_line(installed: bool) -> Seq<char> {
    if installed {
        LABEL@ + " was uninstalled"@
    } else {
        LABEL@ + " is already uninstalled"@
    }
}

/// The taking away of a schedule, of which a LaunchAgent and settings may be there, and the
/// report on it.
pub open spec fn removal_flow(
    paths: SchedulePathsView,
    backend: MacOsBackendView,
    agent: bool,
    installed: bool,
    process: u64,
    replies: Seq<ReplyView>,
    at: int,
) -> Flow<Result<OpeningView, ScheduleErrorView>> {
    match backend::uninstall_flow(backend, paths.settings, agent, process, replies, at) {
        Flow::Ask(request) => Flow::Ask(request),
        Flow::Done(Err(error), next) => Flow::Done(Err(error), next),
        Flow::Done(Ok(_), next) => finish_flow(
            seq![uninstalled_line(installed)],
            replies,
            next,
        ),
    }
}

/// The whole of an uninstallation.
pub open spec fn begin_uninstall_flow(
    context: ScheduleContextView,
    paths: SchedulePathsView,
    backend: MacOsBackendView,
    replies: Seq<ReplyView>,
    at: int,
) -> Flow<Result<OpeningView, ScheduleErrorView>> {
    match steps::found_flow(RequestView::Exists(paths.launch_agent), replies, at) {
        Flow::Ask(request) => Flow::Ask(request),
        Flow::Done(true, next) => removal_flow(
            paths,
            backend,
            true,
            true,
            context.process,
            replies,
            next,
        ),
        Flow::Done(false, next) => match steps::found_flow(
            RequestView::Exists(paths.settings),
            replies,
            next,
        ) {
            Flow::Ask(request) => Flow::Ask(request),
            Flow::Done(present, next) => removal_flow(
                paths,
                backend,
                false,
                present,
                context.process,
                replies,
                next,
            ),
        },
    }
}

/// Takes a schedule away.
pub fn begin_uninstall(
    context: &ScheduleContext,
    paths: &SchedulePaths,
    backend: &MacOsBackend,
    replies: &Vec<Reply>,
    at: usize,
) -> (step: Step<Result<Opening, ScheduleError>>)
    ensures
        flow::step_view(step) == begin_uninstall_flow(
            context.deep_view(),
            paths.deep_view(),
            backend.deep_view(),
            replies.deep_view(),
            at as int,
        ),
{
    let (agent, next) = match steps::is_found(
        Request::Exists(paths.launch_agent.clone()),
        replies,
        at,
    ) {
        Step::Ask(request) => return Step::Ask(request),
        Step::Done(agent, next) => (agent, next),
    };
    let (installed, next) = if agent {
        (true, next)
    } else {
        match steps::is_found(Request::Exists(paths.settings.clone()), replies, next) {
            Step::Ask(request) => return Step::Ask(request),
            Step::Done(present, next) => (present, next),
        }
    };
    let next = match backend.uninstall(
        &paths.settings,
        agent,
        context.process,
        replies,
        next,
    ) {
        Step::Ask(request) => return Step::Ask(request),
        Step::Done(Err(error), next) => return Step::Done(Err(error), next),
        Step::Done(Ok(_), next) => next,
    };
    let line = if installed {
        text::concat2(LABEL, " was uninstalled")
    } else {
        text::concat2(LABEL, " is already uninstalled")
    };
    finish_line(line, replies, next)
}

/// The beginning of a scheduling command, behind the check of the platform.
pub open spec fn command_flow(
    command: ScheduleCommand,
    context: ScheduleContextView,
    paths: SchedulePathsView,
    backend: MacOsBackendView,
    replies: Seq<ReplyView>,
    at: int,
) -> Flow<Result<OpeningView, ScheduleErrorView>> {
    match command {
        ScheduleCommand::Install { allow_degraded_preflight } => begin_install_flow(
            context,
            allow_degraded_preflight,
            paths,
            backend,
            replies,
            at,
        ),
        ScheduleCommand::Status => begin_status_flow(context, paths, backend, replies, at),
        ScheduleCommand::Edit { allow_degraded_preflight } => begin_edit_flow(
            context,
            allow_degraded_preflight,
            paths,
            backend,
            replies,
            at,
        ),
        ScheduleCommand::Uninstall => begin_uninstall_flow(context, paths, backend, replies, at),
    }
}

/// The beginning of a scheduling command: the platform comes first, then the paths, then the
/// user.
pub open spec fn begin_flow(
    command: ScheduleCommand,
    context: ScheduleContextView,
    replies: Seq<ReplyView>,
) -> Flow<Result<OpeningView, ScheduleErrorView>> {
    match supported(context.platform) {
        Err(error) => Flow::Done(Err(error), 0),
        Ok(_) => match schedule_paths(context.environment) {
            Err(error) => Flow::Done(Err(error), 0),
            Ok(paths) => match backend::system_flow(paths, replies, 0) {
                Flow::Ask(request) => Flow::Ask(request),
                Flow::Done(Err(error), next) => Flow::Done(Err(error), next),
                Flow::Done(Ok(backend), next) => command_flow(
                    command,
                    context,
                    paths,
                    backend,
                    replies,
                    next,
                ),
            },
        },
    }
}

fn begin(command: ScheduleCommand, context: &ScheduleContext, replies: &Vec<Reply>) -> (step: Step<
    Result<Opening, ScheduleError>,
>)
    ensures
        flow::step_view(step) == begin_flow(command, context.deep_view(), replies.deep_view()),
{
    match ensure_supported_platform(context.platform.as_str()) {
        Err(error) => return Step::Done(Err(error), 0),
        Ok(_) => {},
    }
    let paths = match resolve_schedule_paths(&context.environment) {
        Err(error) => return Step::Done(Err(error), 0),
        Ok(paths) => paths,
    };
    let (backend, next) = match MacOsBackend::system(&paths, replies, 0) {
        Step::Ask(request) => return Step::Ask(request),
        Step::Done(Err(error), next) => return Step::Done(Err(error), next),
        Step::Done(Ok(backend), next) => (backend, next),
    };
    match command {
        ScheduleCommand::Install { allow_degraded_preflight } => begin_install(
            context,
            allow_degraded_preflight,
            paths,
            backend,
            replies,
            next,
        ),
        ScheduleCommand::Status => begin_status(context, paths, backend, replies, next),
        ScheduleCommand::Edit { allow_degraded_preflight } => begin_edit(
            context,
            allow_degraded_preflight,
            paths,
            backend,
            replies,
            next,
        ),
        ScheduleCommand::Uninstall => begin_uninstall(context, &paths, &backend, replies, next),
    }
}

/// The lines that tell which repositories cannot be fetched.
pub open spec fn failure_lines(failures: Seq<PreflightFailureView>) -> Seq<Seq<char>> {
    Seq::new(
        failures.len(),
        |i: int|
            "repository preflight failed for "@ + text::lossy_text(failures[i].repository) + ": "@
                + failures[i].message,
    )
}

fn new_failure_lines(failures: &Vec<PreflightFailure>) -> (lines: Vec<String>)
    ensures
        lines.deep_view() == failure_lines(failures.deep_view()),
{
    let ghost all = failures.deep_view();
    let ghost goal = failure_lines(all);
    let mut lines = command::new_texts();
    let mut i: usize = 0;
    assert(goal.take(0) =~= Seq::empty());
    while i < failures.len()
        invariant
            i <= failures.len(),
            all == failures.deep_view(),
            goal == failure_lines(all),
            lines.deep_view() == goal.take(i as int),
        decreases failures.len() - i,
    {
        assert(all[i as int] == failures[i as int].deep_view());
        let shown = failures[i].repository.display();
        let line = text::concat4(
            "repository preflight failed for ",
            shown.as_str(),
            ": ",
            failures[i].message.as_str(),
        );
        text::push_text(&mut lines, line.as_str());
        assert(goal.take(i + 1) =~= goal.take(i as int).push(goal[i as int]));
        i += 1;
    }
    assert(goal.take(i as int) =~= goal);
    lines
}

/// Whether a schedule may be put in place though not all repositories can be fetched: one that
/// only looks always, one that prunes only where that was allowed.
pub open spec fn may_apply(
    settings: ScheduleSettings,
    allow_degraded: bool,
    failures: Seq<PreflightFailureView>,
) -> bool {
    failures.len() == 0 || settings.mode == ScheduleMode::Scan || allow_degraded
}

/// The line that tells that a schedule was put in place.
pub open spec fn applied_line(goal: Goal, settings: ScheduleSettings) -> Seq<char> {
    let mode = launch_agent::mode_label(settings.mode);
    let interval = text::decimal_text(settings.interval_seconds as nat);
    match goal {
        Goal::Install => "installed "@ + LABEL@ + " in "@ + mode + " mode every "@ + interval
            + " seconds"@,
        _ => "updated "@ + LABEL@ + "; mode="@ + mode + ", interval_seconds="@ + interval,
    }
}

/// The putting in place of a schedule, once it is known which repositories cannot be fetched.
pub open spec fn apply_flow(
    preparation: PreparationView,
    failures: Seq<PreflightFailureView>,
    process: u64,
    replies: Seq<ReplyView>,
    at: int,
) -> Flow<Result<(), ScheduleErrorView>> {
    match steps::lines_flow(true, failure_lines(failures), 0, replies, at) {
        Flow::Ask(request) => Flow::Ask(request),
        Flow::Done(Err(error), next) => Flow::Done(Err(error), next),
        Flow::Done(Ok(_), next) => if !may_apply(
            preparation.settings,
            preparation.allow_degraded,
            failures,
        ) {
            Flow::Done(Err(ScheduleErrorView::DegradedPreflight), next)
        } else {
            match backend::install_flow(
                preparation.backend,
                preparation.paths.settings,
                encode_utf8(launch_agent::encoded_settings(preparation.settings)),
                encode_utf8(
                    launch_agent::launch_agent_text(
                        preparation.settings,
                        preparation.environment,
                        preparation.paths,
                    ),
                ),
                process,
                replies,
                next,
            ) {
                Flow::Ask(request) => Flow::Ask(request),
                Flow::Done(Err(error), next) => Flow::Done(Err(error), next),
                Flow::Done(Ok(_), next) => steps::lines_flow(
                    false,
                    seq![applied_line(preparation.goal, preparation.settings)],
                    0,
                    replies,
                    next,
                ),
            }
        },
    }
}

fn new_applied_line(goal: Goal, settings: &ScheduleSettings) -> (line: String)
    ensures
        line@ == applied_line(goal, *settings),
{
    let interval = text::decimal(settings.interval_seconds);
    match goal {
        Goal::Install => {
            let front = text::concat4("installed ", LABEL, " in ", settings.mode.label());
            text::concat4(front.as_str(), " mode every ", interval.as_str(), " seconds")
        },
        _ => {
            let front = text::concat4("updated ", LABEL, "; mode=", settings.mode.label());
            text::concat3(front.as_str(), ", interval_seconds=", interval.as_str())
        },
    }
}

/// Puts a schedule in place, once it is known which repositories cannot be fetched.
pub fn apply(
    preparation: &Preparation,
    failures: &Vec<PreflightFailure>,
    process: u64,
    replies: &Vec<Reply>,
    at: usize,
) -> (step: Step<Result<(), ScheduleError>>)
    ensures
        flow::step_view(step) == apply_flow(
            preparation.deep_view(),
            failures.deep_view(),
            process,
            replies.deep_view(),
            at as int,
        ),
{
    let warnings = new_failure_lines(failures);
    let next = match steps::write_lines(true, &warnings, replies, at) {
        Step::Ask(request) => return Step::Ask(request),
        Step::Done(Err(error), next) => return Step::Done(Err(error), next),
        Step::Done(Ok(_), next) => next,
    };
    let pruning = match preparation.settings.mode {
        ScheduleMode::Scan => false,
        ScheduleMode::Prune => true,
    };
    if failures.len() > 0 && pruning && !preparation.allow_degraded {
        return Step::Done(Err(ScheduleError::DegradedPreflight), next);
    }
    let agent = launch_agent::generate_launch_agent(
        &preparation.settings,
        &preparation.environment,
        &preparation.paths,
    );
    let settings = text::to_bytes(preparation.settings.encode().as_str());
    let contents = text::to_bytes(agent.contents.as_str());
    let next = match preparation.backend.install(
        &preparation.paths.settings,
        settings,
        contents,
        process,
        replies,
        next,
    ) {
        Step::Ask(request) => return Step::Ask(request),
        Step::Done(Err(error), next) => return Step::Done(Err(error), next),
        Step::Done(Ok(_), next) => next,
    };
    steps::write_line(new_applied_line(preparation.goal, &preparation.settings), replies, next)
}

/// The lines that end a report.
pub open spec fn report_lines(result: Result<Seq<PreflightFailureView>, ScheduleErrorView>) -> Seq<
    Seq<char>,
> {
    match result {
        Err(error) => seq![incomplete_line(error)],
        Ok(failures) => if failures.len() == 0 {
            seq!["all repositories pass preflight"@]
        } else {
            failure_lines(failures)
        },
    }
}

fn new_report_lines(result: &Result<Vec<PreflightFailure>, ScheduleError>) -> (lines: Vec<String>)
    ensures
        lines.deep_view() == report_lines(flow::result_view(*result)),
{
    let mut lines = command::new_texts();
    match result {
        Err(error) => {
            let message = error.message();
            let line = text::concat2(
                "repository preflight could not be completed: ",
                message.as_str(),
            );
            text::push_text(&mut lines, line.as_str());
        },
        Ok(failures) => {
            if failures.len() > 0 {
                return new_failure_lines(failures);
            }
            text::push_text(&mut lines, "all repositories pass preflight");
        },
    }
    assert(lines.deep_view() =~= report_lines(flow::result_view(*result)));
    lines
}

/// The end of a scheduling command, behind the search for repositories.
pub open spec fn end_flow(
    preparation: PreparationView,
    found: DiscoveryView,
    context: ScheduleContextView,
    replies: Seq<ReplyView>,
) -> Flow<Result<(), ScheduleErrorView>> {
    match preflight::preflight_flow(
        preparation.environment,
        preparation.config.fetch_timeout_seconds,
        context.search_path,
        found,
        replies,
        0,
    ) {
        Flow::Ask(request) => Flow::Ask(request),
        Flow::Done(result, next) => if preparation.goal == Goal::Report {
            steps::lines_flow(false, report_lines(result), 0, replies, next)
        } else {
            match result {
                Err(error) => Flow::Done(Err(error), next),
                Ok(failures) => apply_flow(
                    preparation,
                    failures,
                    context.process,
                    replies,
                    next,
                ),
            }
        },
    }
}

fn end(
    preparation: &Preparation,
    found: &Discovery,
    context: &ScheduleContext,
    replies: &Vec<Reply>,
) -> (step: Step<Result<(), ScheduleError>>)
    ensures
        flow::step_view(step) == end_flow(
            preparation.deep_view(),
            found.deep_view(),
            context.deep_view(),
            replies.deep_view(),
        ),
{
    let (result, next) = match preflight::preflight_credentials(
        &preparation.environment,
        preparation.config.fetch_timeout_seconds,
        &context.search_path,
        found,
        replies,
        0,
    ) {
        Step::Ask(request) => return Step::Ask(request),
        Step::Done(result, next) => (result, next),
    };
    match preparation.goal {
        Goal::Report => {
            let lines = new_report_lines(&result);
            steps::write_lines(false, &lines, replies, next)
        },
        _ => match result {
            Err(error) => Step::Done(Err(error), next),
            Ok(failures) => apply(preparation, &failures, context.process, replies, next),
        },
    }
}

/// Where a scheduling command stands.
#[derive(Debug, PartialEq, Eq)]
pub enum SchedulePhase {
    /// It begins.
    Beginning,
    /// It looks for repositories.
    Searching(Preparation, Discoverer),
    /// It checks the repositories that were found, and ends.
    Ending(Preparation, Discovery),
    /// It is over.
    Over(Result<(), ScheduleError>),
}

/// The content of a [`SchedulePhase`].
pub enum SchedulePhaseView {
    Beginning,
    Searching(PreparationView, DiscovererView),
    Ending(PreparationView, DiscoveryView),
    Over(Result<(), ScheduleErrorView>),
}

impl DeepView for SchedulePhase {
    type V = SchedulePhaseView;

    open spec fn deep_view(&self) -> SchedulePhaseView {
        match self {
            SchedulePhase::Beginning => SchedulePhaseView::Beginning,
            SchedulePhase::Searching(value, v1) => SchedulePhaseView::Searching(
                value.deep_view(),
                v1.deep_view(),
            ),
            SchedulePhase::Ending(value, v1) => SchedulePhaseView::Ending(
                value.deep_view(),
                v1.deep_view(),
            ),
            SchedulePhase::Over(value) => SchedulePhaseView::Over(crate::flow::result_view(*value)),
        }
    }
}

/// A scheduling command under way.
#[derive(Debug, PartialEq, Eq)]
pub struct Schedule {
    pub command: ScheduleCommand,
    pub context: ScheduleContext,
    pub phase: SchedulePhase,
    /// The replies that belong to the current phase.
    pub replies: Vec<Reply>,
}

/// The content of a [`Schedule`].
pub struct ScheduleView {
    pub command: ScheduleCommand,
    pub context: ScheduleContextView,
    pub phase: SchedulePhaseView,
    pub replies: Seq<ReplyView>,
}

impl DeepView for Schedule {
    type V = ScheduleView;

    open spec fn deep_view(&self) -> ScheduleView {
        ScheduleView {
            command: self.command,
            context: self.context.deep_view(),
            phase: self.phase.deep_view(),
            replies: self.replies.deep_view(),
        }
    }
}

/// On to the end.
pub open spec fn enter_end(
    preparation: PreparationView,
    found: DiscoveryView,
    context: ScheduleContextView,
    replies: Seq<ReplyView>,
) -> SchedulePhaseView {
    match end_flow(preparation, found, context, replies) {
        Flow::Ask(_) => SchedulePhaseView::Ending(preparation, found),
        Flow::Done(result, _) => SchedulePhaseView::Over(result),
    }
}

/// On to the search, or behind it where there is nothing to look for.
pub open spec fn enter_search(
    preparation: PreparationView,
    search: DiscovererView,
    context: ScheduleContextView,
) -> SchedulePhaseView {
    if discovery::search_request(search) is Some {
        SchedulePhaseView::Searching(preparation, search)
    } else {
        enter_end(preparation, discovery::search_result(search), context, Seq::empty())
    }
}

/// Where a scheduling command stands whose beginning has had the given replies.
pub open spec fn enter_beginning(
    command: ScheduleCommand,
    context: ScheduleContextView,
    replies: Seq<ReplyView>,
) -> SchedulePhaseView {
    match begin_flow(command, context, replies) {
        Flow::Ask(_) => SchedulePhaseView::Beginning,
        Flow::Done(Err(error), _) => SchedulePhaseView::Over(Err(error)),
        Flow::Done(Ok(OpeningView::Finished), _) => SchedulePhaseView::Over(Ok(())),
        Flow::Done(Ok(OpeningView::Search(preparation)), _) => enter_search(
            preparation,
            discovery::new_search(preparation.config.roots, preparation.config.scan_depth),
            context,
        ),
    }
}

/// The replies that belong to a phase which was entered from another, with the given ones.
pub open spec fn kept_replies(stays: bool, replies: Seq<ReplyView>) -> Seq<ReplyView> {
    if stays {
        replies
    } else {
        Seq::empty()
    }
}

/// A scheduling command that begins.
pub open spec fn new_schedule(
    command: ScheduleCommand,
    context: ScheduleContextView,
) -> ScheduleView {
    ScheduleView {
        command,
        context,
        phase: enter_beginning(command, context, Seq::empty()),
        replies: Seq::empty(),
    }
}

/// What a scheduling command asks for; nothing once it is over.
pub open spec fn schedule_request(schedule: ScheduleView) -> Option<RequestView> {
    match schedule.phase {
        SchedulePhaseView::Beginning => match begin_flow(
            schedule.command,
            schedule.context,
            schedule.replies,
        ) {
            Flow::Ask(request) => Some(request),
            Flow::Done(_, _) => None,
        },
        SchedulePhaseView::Searching(_, search) => discovery::search_request(search),
        SchedulePhaseView::Ending(preparation, found) => match end_flow(
            preparation,
            found,
            schedule.context,
            schedule.replies,
        ) {
            Flow::Ask(request) => Some(request),
            Flow::Done(_, _) => None,
        },
        SchedulePhaseView::Over(_) => None,
    }
}

/// A scheduling command after a reply to its request.
pub open spec fn schedule_advance(schedule: ScheduleView, reply: ReplyView) -> ScheduleView {
    let replies = schedule.replies.push(reply);
    match schedule.phase {
        SchedulePhaseView::Beginning => {
            let phase = enter_beginning(schedule.command, schedule.context, replies);
            ScheduleView {
                phase,
                replies: kept_replies(phase is Beginning, replies),
                ..schedule
            }
        },
        SchedulePhaseView::Searching(preparation, search) => ScheduleView {
            phase: enter_search(
                preparation,
                discovery::search_advance(search, reply),
                schedule.context,
            ),
            replies: Seq::empty(),
            ..schedule
        },
        SchedulePhaseView::Ending(preparation, found) => {
            let phase = enter_end(preparation, found, schedule.context, replies);
            ScheduleView { phase, replies: kept_replies(phase is Ending, replies), ..schedule }
        },
        SchedulePhaseView::Over(_) => schedule,
    }
}

fn no_replies() -> (replies: Vec<Reply>)
    ensures
        replies.deep_view() == Seq::<ReplyView>::empty(),
{
    let replies: Vec<Reply> = Vec::new();
    assert(replies.deep_view() =~= Seq::empty());
    replies
}

fn go_to_end(
    preparation: Preparation,
    found: Discovery,
    context: &ScheduleContext,
    replies: &Vec<Reply>,
) -> (phase: SchedulePhase)
    ensures
        phase.deep_view() == enter_end(
            preparation.deep_view(),
            found.deep_view(),
            context.deep_view(),
            replies.deep_view(),
        ),
{
    match end(&preparation, &found, context, replies) {
        Step::Ask(_) => SchedulePhase::Ending(preparation, found),
        Step::Done(result, _) => SchedulePhase::Over(result),
    }
}

fn go_to_search(preparation: Preparation, search: Discoverer, context: &ScheduleContext) -> (phase:
    SchedulePhase)
    ensures
        phase.deep_view() == enter_search(
            preparation.deep_view(),
            search.deep_view(),
            context.deep_view(),
        ),
{
    match search.request() {
        Some(_) => SchedulePhase::Searching(preparation, search),
        None => go_to_end(preparation, search.finish(), context, &no_replies()),
    }
}

fn go_on(command: ScheduleCommand, context: &ScheduleContext, replies: &Vec<Reply>) -> (phase:
    SchedulePhase)
    ensures
        phase.deep_view() == enter_beginning(command, context.deep_view(), replies.deep_view()),
{
    match begin(command, context, replies) {
        Step::Ask(_) => SchedulePhase::Beginning,
        Step::Done(Err(error), _) => SchedulePhase::Over(Err(error)),
        Step::Done(Ok(Opening::Finished), _) => SchedulePhase::Over(Ok(())),
        Step::Done(Ok(Opening::Search(preparation)), _) => {
            let search = discovery::discover(
                &preparation.config.roots,
                preparation.config.scan_depth,
            );
            go_to_search(preparation, search, context)
        },
    }
}

/// Runs a scheduling command independently of the cleanup pipeline.
pub fn run(command: ScheduleCommand, context: ScheduleContext) -> (schedule: Schedule)
    ensures
        schedule.deep_view() == new_schedule(command, context.deep_view()),
{
    let replies = no_replies();
    let phase = go_on(command, &context, &replies);
    Schedule { command, context, phase, replies }
}

impl Schedule {
    /// What the scheduling command asks for; nothing once it is over.
    pub fn request(&self) -> (request: Option<Request>)
        ensures
            request.deep_view() == schedule_request(self.deep_view()),
    {
        match &self.phase {
            SchedulePhase::Beginning => match begin(self.command, &self.context, &self.replies) {
                Step::Ask(request) => Some(request),
                Step::Done(_, _) => None,
            },
            SchedulePhase::Searching(_, search) => search.request(),
            SchedulePhase::Ending(preparation, found) => match end(
                preparation,
                found,
                &self.context,
                &self.replies,
            ) {
                Step::Ask(request) => Some(request),
                Step::Done(_, _) => None,
            },
            SchedulePhase::Over(_) => None,
        }
    }

    /// The scheduling command after a reply to its request.
    pub fn advance(self, reply: Reply) -> (schedule: Schedule)
        ensures
            schedule.deep_view() == schedule_advance(self.deep_view(), reply.deep_view()),
    {
        let Schedule { command, context, phase, replies: held } = self;
        let mut replies = held;
        match phase {
            SchedulePhase::Beginning => {
                discovery::push_reply(&mut replies, reply);
                let phase = go_on(command, &context, &replies);
                match phase {
                    SchedulePhase::Beginning => Schedule { command, context, phase, replies },
                    phase => Schedule { command, context, phase, replies: no_replies() },
                }
            },
            SchedulePhase::Searching(preparation, search) => {
                let phase = go_to_search(preparation, search.advance(reply), &context);
                Schedule { command, context, phase, replies: no_replies() }
            },
            SchedulePhase::Ending(preparation, found) => {
                discovery::push_reply(&mut replies, reply);
                let phase = go_to_end(preparation, found, &context, &replies);
                match phase {
                    SchedulePhase::Ending(preparation, found) => Schedule {
                        command,
                        context,
                        phase: SchedulePhase::Ending(preparation, found),
                        replies,
                    },
                    phase => Schedule { command, context, phase, replies: no_replies() },
                }
            },
            SchedulePhase::Over(result) => Schedule {
                command,
                context,
                phase: SchedulePhase::Over(result),
                replies,
            },
        }
    }
}

} // verus!
