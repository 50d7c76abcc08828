//! Where configuration, state and lock are kept.
use crate::filepath;
use crate::filepath::{FilePath, ShownPath, ShownPathView};
use crate::flow;
use crate::text;
use vstd::prelude::*;
use vstd::utf8::*;

verus! {

/// The files of an installation.
#[derive(Debug, PartialEq, Eq)]
pub struct AppPaths {
    pub config_file: FilePath,
    pub state_file: FilePath,
    pub lock_file: FilePath,
}

/// The content of a [`AppPaths`].
pub struct AppPathsView {
    pub config_file: Seq<u8>,
    pub state_file: Seq<u8>,
    pub lock_file: Seq<u8>,
}

impl DeepView for AppPaths {
    type V = AppPathsView;

    open spec fn deep_view(&self) -> AppPathsView {
        AppPathsView {
            config_file: self.config_file@,
            state_file: self.state_file@,
            lock_file: self.lock_file@,
        }
    }
}

impl Clone for AppPaths {
    fn clone(&self) -> (copy: Self)
        ensures
            copy.deep_view() == self.deep_view(),
    {
        AppPaths {
            config_file: self.config_file.clone(),
            state_file: self.state_file.clone(),
            lock_file: self.lock_file.clone(),
        }
    }
}

/// The variables of the environment that say where files are kept.
#[derive(Debug, PartialEq, Eq)]
pub struct Environment {
    pub home: Option<FilePath>,
    pub xdg_config_home: Option<ShownPath>,
    pub xdg_state_home: Option<ShownPath>,
}

/// The content of a [`Environment`].
pub struct EnvironmentView {
    pub home: Option<Seq<u8>>,
    pub xdg_config_home: Option<ShownPathView>,
    pub xdg_state_home: Option<ShownPathView>,
}

impl DeepView for Environment {
    type V = EnvironmentView;

    open spec fn deep_view(&self) -> EnvironmentView {
        EnvironmentView {
            home: self.home.deep_view(),
            xdg_config_home: self.xdg_config_home.deep_view(),
            xdg_state_home: self.xdg_state_home.deep_view(),
        }
    }
}

/// Why it is not known where files are kept.
#[derive(Debug, PartialEq, Eq)]
pub enum PathError {
    MissingHome,
    RelativeXdgPath { variable: String, value: ShownPath },
}

/// The content of a [`PathError`].
pub enum PathErrorView {
    MissingHome,
    RelativeXdgPath { variable: Seq<char>, value: ShownPathView },
}

impl DeepView for PathError {
    type V = PathErrorView;

    open spec fn deep_view(&self) -> PathErrorView {
        match self {
            PathError::MissingHome => PathErrorView::MissingHome,
            PathError::RelativeXdgPath { variable, value } => PathErrorView::RelativeXdgPath {
                variable: variable@,
                value: value.deep_view(),
            },
        }
    }
}

/// The message of an error.
pub open spec fn path_message(error: PathErrorView) -> Seq<char> {
    match error {
        PathErrorView::MissingHome => {
            "HOME is not set; cannot resolve Lop's configuration and state paths"@
        },
        PathErrorView::RelativeXdgPath { variable, value } => variable
            + " must be an absolute path, but was "@ + value.shown,
    }
}

impl PathError {
    /// The message of the error.
    pub fn message(&self) -> (message: String)
        ensures
            message@ == path_message(self.deep_view()),
    {
        match self {
            PathError::MissingHome => {
                "HOME is not set; cannot resolve Lop's configuration and state paths".to_owned()
            },
            PathError::RelativeXdgPath { variable, value } => text::concat3(
                variable.as_str(),
                " must be an absolute path, but was ",
                value.shown.as_str(),
            ),
        }
    }
}

/// The directory that a variable names; `fallback` where it is unset or empty.
pub open spec fn xdg_directory(
    variable: Seq<char>,
    value: Option<ShownPathView>,
    fallback: Option<Seq<u8>>,
) -> Result<Seq<u8>, PathErrorView> {
    match value {
        Some(value) if value.path.len() > 0 => if filepath::absolute(value.path) {
            Ok(value.path)
        } else {
            Err(PathErrorView::RelativeXdgPath { variable, value })
        },
        _ => match fallback {
            Some(fallback) => Ok(fallback),
            None => Err(PathErrorView::MissingHome),
        },
    }
}

fn xdg_home(
    variable: &str,
    value: &Option<ShownPath>,
    fallback: Option<FilePath>,
) -> (result: Result<
    FilePath,
    PathError,
>)
    ensures
        flow::result_view(result) == xdg_directory(
            variable@,
            value.deep_view(),
            fallback.deep_view(),
        ),
{
    match value {
        Some(value) if value.path.bytes.len() > 0 => if value.path.is_absolute() {
            Ok(value.path.clone())
        } else {
            Err(
                PathError::RelativeXdgPath {
                    variable: variable.to_owned(),
                    value: value.clone(),
                },
            )
        },
        _ => match fallback {
            Some(fallback) => Ok(fallback),
            None => Err(PathError::MissingHome),
        },
    }
}

/// A directory of the home directory, if there is one.
pub open spec fn home_directory(home: Option<Seq<u8>>, name: Seq<char>) -> Option<Seq<u8>> {
    match home {
        None => None,
        Some(home) => Some(filepath::joined(home, encode_utf8(name))),
    }
}

fn below_home(home: &Option<FilePath>, name: &str) -> (directory: Option<FilePath>)
    ensures
        directory.deep_view() == home_directory(home.deep_view(), name@),
{
    match home {
        None => None,
        Some(home) => Some(home.join_text(name)),
    }
}

/// Where the environment says that files are kept. The configuration directory is looked at
/// first.
pub open spec fn resolve_paths(
    environment: EnvironmentView,
) -> Result<AppPathsView, PathErrorView> {
    match xdg_directory(
        "XDG_CONFIG_HOME"@,
        environment.xdg_config_home,
        home_directory(environment.home, ".config"@),
    ) {
        Err(error) => Err(error),
        Ok(config_home) => match xdg_directory(
            "XDG_STATE_HOME"@,
            environment.xdg_state_home,
            home_directory(environment.home, ".local/state"@),
        ) {
            Err(error) => Err(error),
            Ok(state_home) => {
                let state_directory = filepath::joined(state_home, encode_utf8("lop"@));
                Ok(
                    AppPathsView {
                        config_file: filepath::joined(
                            config_home,
                            encode_utf8("lop/config.toml"@),
                        ),
                        state_file: filepath::joined(state_directory, encode_utf8("state.json"@)),
                        lock_file: filepath::joined(state_directory, encode_utf8("run.lock"@)),
                    },
                )
            },
        },
    }
}

impl AppPaths {
    /// Resolves configuration, state, and lock paths from XDG environment variables. It is an
    /// error when no usable home exists or an XDG path is relative.
    pub fn from_env(environment: &Environment) -> (result: Result<AppPaths, PathError>)
        ensures
            flow::result_view(result) == resolve_paths(environment.deep_view()),
    {
        let config_home = match xdg_home(
            "XDG_CONFIG_HOME",
            &environment.xdg_config_home,
            below_home(&environment.home, ".config"),
        ) {
            Err(error) => return Err(error),
            Ok(directory) => directory,
        };
        let state_home = match xdg_home(
            "XDG_STATE_HOME",
            &environment.xdg_state_home,
            below_home(&environment.home, ".local/state"),
        ) {
            Err(error) => return Err(error),
            Ok(directory) => directory,
        };
        let state_directory = state_home.join_text("lop");
        Ok(
            AppPaths {
                config_file: config_home.join_text("lop/config.toml"),
                state_file: state_directory.join_text("state.json"),
                lock_file: state_directory.join_text("run.lock"),
            },
        )
    }
}

/// Configuration and state are kept where the XDG variables say, where they are set and not empty,
/// and otherwise below the home directory; the lock is kept beside the state.
pub proof fn law_files_are_kept_where_the_environment_says(environment: EnvironmentView)
    ensures
        ({
            let config = environment.xdg_config_home;
            let state = environment.xdg_state_home;
            let config_set = config is Some && config->0.path.len() > 0;
            let state_set = state is Some && state->0.path.len() > 0;
            let config_fails = config_set && !filepath::absolute(config->0.path);
            let state_fails = state_set && !filepath::absolute(state->0.path);
            let homeless = environment.home is None;
            let directory = filepath::joined(
                if state_set {
                    state->0.path
                } else {
                    filepath::joined(environment.home->0, encode_utf8(".local/state"@))
                },
                encode_utf8("lop"@),
            );
            match resolve_paths(environment) {
                Ok(paths) => {
                    &&& !config_fails && !state_fails && !(homeless && !(config_set && state_set))
                    &&& paths.config_file == filepath::joined(
                        if config_set {
                            config->0.path
                        } else {
                            filepath::joined(environment.home->0, encode_utf8(".config"@))
                        },
                        encode_utf8("lop/config.toml"@),
                    )
                    &&& paths.state_file == filepath::joined(directory, encode_utf8("state.json"@))
                    &&& paths.lock_file == filepath::joined(directory, encode_utf8("run.lock"@))
                },
                Err(PathErrorView::MissingHome) => homeless && !(config_set && state_set),
                Err(PathErrorView::RelativeXdgPath { variable, value }) => {
                    ||| config_fails && variable == "XDG_CONFIG_HOME"@ && Some(value) == config
                    ||| state_fails && variable == "XDG_STATE_HOME"@ && Some(value) == state
                },
            }
        }),
{
}

} // verus!
