//! Command line, paths, configuration, lock, state and records.
use lop::cli::{Cli, Command, ScheduleCommand, UsageError};
use lop::command::{Reply, Request};
use lop::config::{
    expand_root, Config, ConfigError, ConfigFailure, RawConfig, DEFAULT_CHECK_PROCESSES,
    DEFAULT_FETCH_TIMEOUT_SECONDS, DEFAULT_SCAN_DEPTH,
};
use lop::filepath::{FilePath, ShownPath};
use lop::flow::Step;
use lop::lock::{LockError, LockFailure, RunLock};
use lop::output::{
    CommandName, Event, ReasonCode, RepositoryOutcome, Summary, WorktreeOutcome,
    OUTPUT_SCHEMA_VERSION,
};
use lop::paths::{AppPaths, Environment, PathError};
use lop::state::{
    ClassificationState, RepositoryState, SaveFailure, State, StateError, STATE_SCHEMA_VERSION,
};
use lop::textmap::TextMap;

fn path(text: &str) -> FilePath {
    FilePath::from_text(text)
}

fn words(words: &[&str]) -> Vec<String> {
    words.iter().map(|word| word.to_string()).collect()
}

fn parse(arguments: &[&str]) -> Result<Cli, UsageError> {
    Cli::try_parse_from(&words(arguments))
}

#[test]
fn parses_scan() {
    assert_eq!(parse(&["lop", "scan"]).unwrap().command, Command::Scan);
}

#[test]
fn prune_is_dry_run_by_default() {
    assert_eq!(
        parse(&["lop", "prune"]).unwrap().command,
        Command::Prune { yes: false }
    );
}

#[test]
fn prune_yes_enables_application() {
    assert_eq!(
        parse(&["lop", "prune", "--yes"]).unwrap().command,
        Command::Prune { yes: true }
    );
}

#[test]
fn rejects_yes_for_scan() {
    assert!(parse(&["lop", "scan", "--yes"]).is_err());
}

#[test]
fn parses_schedule_commands() {
    for (arguments, command) in [
        (
            &["lop", "schedule", "install"][..],
            ScheduleCommand::Install { allow_degraded_preflight: false },
        ),
        (
            &["lop", "schedule", "install", "--allow-degraded-preflight"][..],
            ScheduleCommand::Install { allow_degraded_preflight: true },
        ),
        (&["lop", "schedule", "status"][..], ScheduleCommand::Status),
        (
            &["lop", "schedule", "edit", "--allow-degraded-preflight"][..],
            ScheduleCommand::Edit { allow_degraded_preflight: true },
        ),
        (&["lop", "schedule", "uninstall"][..], ScheduleCommand::Uninstall),
    ] {
        assert_eq!(parse(arguments).unwrap().command, Command::Schedule { command });
    }
    assert_eq!(parse(&["lop", "scan", "--"]).unwrap().command, Command::Scan);
    assert_eq!(
        parse(&["lop", "prune", "--yes", "--"]).unwrap().command,
        Command::Prune { yes: true }
    );
    assert_eq!(
        parse(&["lop", "prune", "--"]).unwrap().command,
        Command::Prune { yes: false }
    );
    assert!(parse(&["lop", "prune", "--", "--yes"]).is_err());
    assert!(parse(&["lop", "scan", "--", "x"]).is_err());
    assert!(parse(&["lop", "schedule"]).is_err());
    assert!(parse(&["lop", "schedule", "status", "--allow-degraded-preflight"]).is_err());
    assert!(parse(&["lop"]).is_err());
    assert!(parse(&["lop", "clean"]).is_err());
}

fn raw(roots: &[&str]) -> RawConfig {
    RawConfig {
        roots: words(roots),
        scan_depth: 3,
        fetch_timeout_seconds: 60,
        check_processes: true,
    }
}

#[test]
fn expands_home_and_accepts_absolute_roots() {
    let home = Some(path("/home/me"));
    let config = Config::validate(&raw(&["~/dev", "/opt/src"]), &home).unwrap();
    assert_eq!(config.roots, [path("/home/me/dev"), path("/opt/src")]);
}

#[test]
fn requires_a_root() {
    assert!(matches!(Config::validate(&raw(&[]), &None), Err(ConfigError::NoRoots)));
}

#[test]
fn rejects_relative_and_user_tilde_roots() {
    assert!(matches!(
        Config::validate(&raw(&["src"]), &None),
        Err(ConfigError::RelativeRoot { .. })
    ));
    assert!(matches!(
        Config::validate(&raw(&["~other/src"]), &None),
        Err(ConfigError::UnsupportedTilde { .. })
    ));
}

#[test]
fn preserves_duplicate_roots_for_discovery_to_deduplicate() {
    let config = Config::validate(&raw(&["/src", "/src"]), &None).unwrap();
    assert_eq!(config.roots, [path("/src"), path("/src")]);
}

#[test]
fn validates_numeric_ranges() {
    let mut config = raw(&["/src"]);
    config.scan_depth = 0;
    assert!(matches!(
        Config::validate(&config, &None),
        Err(ConfigError::InvalidScanDepth)
    ));

    let mut config = raw(&["/src"]);
    config.fetch_timeout_seconds = 0;
    assert!(matches!(
        Config::validate(&config, &None),
        Err(ConfigError::InvalidFetchTimeout)
    ));
}

#[test]
fn defaults_optional_fields() {
    let raw = RawConfig {
        roots: words(&["/src"]),
        scan_depth: DEFAULT_SCAN_DEPTH,
        fetch_timeout_seconds: DEFAULT_FETCH_TIMEOUT_SECONDS,
        check_processes: DEFAULT_CHECK_PROCESSES,
    };
    assert_eq!(raw.scan_depth, 3);
    assert_eq!(raw.fetch_timeout_seconds, 60);
    assert!(raw.check_processes);
    assert_eq!(
        Config::validate(&raw, &None),
        Ok(Config {
            roots: vec![path("/src")],
            scan_depth: 3,
            fetch_timeout_seconds: 60,
            check_processes: true,
        })
    );
}

#[test]
fn the_first_bad_setting_is_reported() {
    let mut config = raw(&["", "src"]);
    assert_eq!(
        Config::validate(&config, &None),
        Err(ConfigError::EmptyRoot { root: String::new() })
    );
    config.fetch_timeout_seconds = 0;
    assert_eq!(Config::validate(&config, &None), Err(ConfigError::InvalidFetchTimeout));
    config.scan_depth = 0;
    assert_eq!(Config::validate(&config, &None), Err(ConfigError::InvalidScanDepth));
    config.roots = Vec::new();
    assert_eq!(Config::validate(&config, &None), Err(ConfigError::NoRoots));
}

#[test]
fn home_is_needed_only_where_it_is_named() {
    assert_eq!(
        expand_root("~/dev", &None),
        Err(ConfigError::MissingHome { root: "~/dev".to_owned() })
    );
    assert_eq!(
        expand_root("~/", &None).unwrap_err().message(),
        "invalid configuration: cannot expand \"~/\" because HOME is not set"
    );
    assert_eq!(expand_root("~/", &Some(path("/home/me"))), Ok(path("/home/me")));
    assert_eq!(
        expand_root("~", &Some(path("/home/me"))),
        Err(ConfigError::UnsupportedTilde { root: "~".to_owned() })
    );
    assert_eq!(expand_root("/opt", &None), Ok(path("/opt")));
}

#[test]
fn configuration_errors_are_actionable() {
    for (error, message) in [
        (
            ConfigError::Missing(path("/c/config.toml")),
            "configuration not found at /c/config.toml; copy config.example.toml there and set at least one root",
        ),
        (
            ConfigError::Read { path: path("/c"), source: "denied".to_owned() },
            "failed to read configuration at /c: denied",
        ),
        (
            ConfigError::Parse { path: path("/c"), source: "bad".to_owned() },
            "invalid configuration at /c: bad",
        ),
        (
            ConfigError::NoRoots,
            "invalid configuration: roots must contain at least one explicitly configured directory",
        ),
        (
            ConfigError::EmptyRoot { root: String::new() },
            "invalid configuration: root \"\" is empty",
        ),
        (
            ConfigError::RelativeRoot { root: "a\tb".to_owned() },
            "invalid configuration: root \"a\\tb\" must be absolute or start with '~/'",
        ),
        (
            ConfigError::UnsupportedTilde { root: "~other".to_owned() },
            "invalid configuration: '~user' expansion is unsupported in root \"~other\"; use an absolute path",
        ),
        (
            ConfigError::InvalidScanDepth,
            "invalid configuration: scan_depth must be greater than zero",
        ),
        (
            ConfigError::InvalidFetchTimeout,
            "invalid configuration: fetch_timeout_seconds must be greater than zero",
        ),
    ] {
        assert_eq!(error.message(), message);
    }
}

#[test]
fn configuration_is_loaded_and_validated() {
    let file = path("/c/config.toml");
    let load = |replies: Vec<Reply>| Config::load(&file, &None, &replies, 0);
    assert_eq!(load(Vec::new()), Step::Ask(Request::LoadConfig(path("/c/config.toml"))));
    assert_eq!(
        load(vec![Reply::Config(Err(ConfigFailure::Missing))]),
        Step::Done(Err(ConfigError::Missing(path("/c/config.toml"))), 1)
    );
    assert!(matches!(
        load(vec![Reply::Config(Err(ConfigFailure::Read("x".to_owned())))]),
        Step::Done(Err(ConfigError::Read { .. }), 1)
    ));
    assert!(matches!(
        load(vec![Reply::Config(Err(ConfigFailure::Parse("x".to_owned())))]),
        Step::Done(Err(ConfigError::Parse { .. }), 1)
    ));
    assert!(matches!(load(vec![Reply::Config(Ok(raw(&["/src"])))]), Step::Done(Ok(_), 1)));
    assert!(matches!(
        load(vec![Reply::Config(Ok(raw(&[])))]),
        Step::Done(Err(ConfigError::NoRoots), 1)
    ));
    assert!(matches!(
        load(vec![Reply::Exists(true)]),
        Step::Done(Err(ConfigError::Read { .. }), 1)
    ));
}

fn resolve(values: &[(&str, &str)]) -> Result<AppPaths, PathError> {
    let get = |name: &str| {
        values
            .iter()
            .find(|(key, _)| *key == name)
            .map(|(_, value)| *value)
    };
    let shown = |name: &str| {
        get(name).map(|value| ShownPath {
            path: path(value),
            shown: format!("{:?}", std::path::Path::new(value)),
        })
    };
    AppPaths::from_env(&Environment {
        home: get("HOME").map(path),
        xdg_config_home: shown("XDG_CONFIG_HOME"),
        xdg_state_home: shown("XDG_STATE_HOME"),
    })
}

#[test]
fn uses_home_fallbacks() {
    let paths = resolve(&[("HOME", "/Users/test")]).unwrap();
    assert_eq!(paths.config_file, path("/Users/test/.config/lop/config.toml"));
    assert_eq!(paths.state_file, path("/Users/test/.local/state/lop/state.json"));
    assert_eq!(paths.lock_file, path("/Users/test/.local/state/lop/run.lock"));
}

#[test]
fn honors_xdg_overrides_without_requiring_home() {
    let paths = resolve(&[
        ("XDG_CONFIG_HOME", "/tmp/config"),
        ("XDG_STATE_HOME", "/tmp/state"),
    ])
    .unwrap();
    assert_eq!(paths.config_file, path("/tmp/config/lop/config.toml"));
    assert_eq!(paths.state_file, path("/tmp/state/lop/state.json"));
}

#[test]
fn rejects_relative_xdg_paths() {
    let error = resolve(&[("HOME", "/Users/test"), ("XDG_CONFIG_HOME", "relative")]).unwrap_err();
    assert!(matches!(error, PathError::RelativeXdgPath { .. }));
}

#[test]
fn relative_paths_are_shown_as_they_came() {
    let error = resolve(&[("HOME", "/h"), ("XDG_STATE_HOME", "re\"lative")]).unwrap_err();
    assert_eq!(
        error.message(),
        "XDG_STATE_HOME must be an absolute path, but was \"re\\\"lative\""
    );
    let error = AppPaths::from_env(&Environment {
        home: Some(path("/h")),
        xdg_config_home: Some(ShownPath {
            path: FilePath::new(vec![b'a', 0xff]),
            shown: "\"a\\xFF\"".to_owned(),
        }),
        xdg_state_home: None,
    })
    .unwrap_err();
    assert_eq!(
        error.message(),
        "XDG_CONFIG_HOME must be an absolute path, but was \"a\\xFF\""
    );
}

#[test]
fn empty_xdg_paths_count_as_unset() {
    let paths = resolve(&[("HOME", "/h"), ("XDG_STATE_HOME", "")]).unwrap();
    assert_eq!(paths.lock_file, path("/h/.local/state/lop/run.lock"));
    let error = resolve(&[("XDG_CONFIG_HOME", "/c")]).unwrap_err();
    assert_eq!(error, PathError::MissingHome);
    assert_eq!(
        error.message(),
        "HOME is not set; cannot resolve Lop's configuration and state paths"
    );
    assert_eq!(
        resolve(&[("HOME", "/h"), ("XDG_STATE_HOME", "a\tb")]).unwrap_err().message(),
        "XDG_STATE_HOME must be an absolute path, but was \"a\\tb\""
    );
}

/// A lock that one run at a time can hold.
struct Locks {
    held: bool,
}

impl Locks {
    fn answer(&mut self, request: Request) -> Reply {
        match request {
            Request::AcquireLock { .. } => {
                if self.held {
                    return Reply::Lock(Err(LockFailure::Contended));
                }
                self.held = true;
                Reply::Lock(Ok(()))
            }
            request => panic!("unexpected {request:?}"),
        }
    }

    fn acquire(&mut self, file: &FilePath) -> Result<RunLock, LockError> {
        let mut replies = Vec::new();
        loop {
            match RunLock::acquire(file, &replies, 0) {
                Step::Ask(request) => {
                    let reply = self.answer(request);
                    replies.push(reply);
                }
                Step::Done(result, _) => return result,
            }
        }
    }
}

#[test]
fn contention_is_reported_and_release_allows_next_run() {
    let file = path("/state/lop/run.lock");
    let mut locks = Locks { held: false };
    assert!(locks.acquire(&file).is_ok());
    assert!(matches!(locks.acquire(&file), Err(LockError::Contended(_))));
    locks.held = false;
    assert!(locks.acquire(&file).is_ok());
}

#[test]
fn lock_failures_tell_what_failed() {
    let file = path("/state/lop/run.lock");
    assert_eq!(
        RunLock::acquire(&file, &Vec::new(), 0),
        Step::Ask(Request::AcquireLock {
            directory: path("/state/lop"),
            path: path("/state/lop/run.lock"),
        })
    );
    for (failure, message) in [
        (
            LockFailure::CreateDirectory("x".to_owned()),
            "failed to create lock directory /state/lop: x",
        ),
        (
            LockFailure::Open("x".to_owned()),
            "failed to open process lock /state/lop/run.lock: x",
        ),
        (
            LockFailure::Contended,
            "another Lop run is already active (lock: /state/lop/run.lock)",
        ),
        (
            LockFailure::Acquire("x".to_owned()),
            "failed to acquire process lock /state/lop/run.lock: x",
        ),
    ] {
        match RunLock::acquire(&file, &vec![Reply::Lock(Err(failure))], 0) {
            Step::Done(Err(error), 1) => assert_eq!(error.message(), message),
            step => panic!("unexpected {step:?}"),
        }
    }
}

#[test]
fn summary_schema_is_stable() {
    let summary = Summary::empty(CommandName::Prune, false);
    assert_eq!(
        Event::summary(&summary),
        Event::Summary {
            summary: Summary {
                schema_version: OUTPUT_SCHEMA_VERSION,
                command: CommandName::Prune,
                apply: false,
                repositories_scanned: 0,
                fetch_failures: 0,
                worktrees_inspected: 0,
                candidates: 0,
                removals: 0,
                refusals: 0,
                malformed_states: 0,
                operational_failures: 0,
            },
        }
    );
    assert_eq!(OUTPUT_SCHEMA_VERSION, 2);
}

#[test]
fn repository_and_worktree_records_have_stable_reasons() {
    let repository = Event::Repository {
        schema_version: OUTPUT_SCHEMA_VERSION,
        path: path("/src/project"),
        git_common_directory: Some(path("/src/project/.git")),
        outcome: RepositoryOutcome::FetchFailed,
        reason_code: ReasonCode::FetchFailed,
        message: Some("network unavailable".to_owned()),
    };
    let worktree = Event::Worktree {
        schema_version: OUTPUT_SCHEMA_VERSION,
        repository: path("/src/project"),
        path: path("/src/project-feature"),
        outcome: WorktreeOutcome::Refused,
        reason_code: ReasonCode::DirtyWorktree,
        classification_changed: true,
        message: None,
    };
    match repository {
        Event::Repository { reason_code, .. } => assert_eq!(reason_code.name(), "fetch_failed"),
        event => panic!("unexpected {event:?}"),
    }
    match worktree {
        Event::Worktree { reason_code, classification_changed, .. } => {
            assert_eq!(reason_code.name(), "dirty_worktree");
            assert_eq!(classification_changed, true);
        }
        event => panic!("unexpected {event:?}"),
    }
}

#[test]
fn safe_refusals_do_not_fail_the_run() {
    let mut summary = Summary::empty(CommandName::Scan, false);
    summary.refusals = 2;
    assert_eq!(summary.exit_code(), 0);
    summary.operational_failures = 1;
    assert_eq!(summary.exit_code(), 1);
}

#[test]
fn names_are_spelled_in_snake_case() {
    assert_eq!(ReasonCode::Okay.name(), "ok");
    assert_eq!(
        ReasonCode::IntegratedMergeAddsNothing.name(),
        "integrated_merge_adds_nothing"
    );
    assert_eq!(
        ReasonCode::HerdrStaleWorkspaceRetired.name(),
        "herdr_stale_workspace_retired"
    );
    assert_eq!(WorktreeOutcome::Retained.name(), "retained");
    assert_eq!(WorktreeOutcome::Malformed.name(), "malformed");
}

#[test]
fn failures_are_counted_without_overflow() {
    let mut summary = Summary::empty(CommandName::Scan, false);
    summary = summary.count_failure();
    assert_eq!(summary.operational_failures, 1);
    summary.operational_failures = u64::MAX;
    assert_eq!(summary.count_failure().operational_failures, u64::MAX);
}

/// A state file, and what reading it as a document gives.
struct StateFile {
    contents: Result<Option<Vec<u8>>, String>,
}

fn member<'a>(value: &'a serde_json::Value, name: &str) -> Option<&'a serde_json::Value> {
    value.as_object().and_then(|object| object.get(name))
}

fn decode_state(versioned: bool, document: &[u8]) -> Result<TextMap<RepositoryState>, String> {
    let value: serde_json::Value =
        serde_json::from_slice(document).map_err(|error| error.to_string())?;
    let object = value.as_object().ok_or("no object")?;
    for key in object.keys() {
        let known = match key.as_str() {
            "repositories" | "schema_version" | "tool_version" => true,
            _ => false,
        };
        if !known {
            return Err(format!("unknown field {key}"));
        }
    }
    if versioned && member(&value, "tool_version").is_none() {
        return Err("missing field tool_version".to_owned());
    }
    let mut repositories = TextMap::new();
    match member(&value, "repositories") {
        None => {}
        Some(found) => {
            for (name, repository) in found.as_object().ok_or("no object")? {
                let mut classifications = TextMap::new();
                if let Some(found) = member(repository, "last_classifications") {
                    for (path, state) in found.as_object().ok_or("no object")? {
                        classifications = classifications.with(
                            path.clone(),
                            ClassificationState {
                                classification: member(state, "classification")
                                    .and_then(|value| value.as_str())
                                    .ok_or("no text")?
                                    .to_owned(),
                                reason_code: member(state, "reason_code")
                                    .and_then(|value| value.as_str())
                                    .ok_or("no text")?
                                    .to_owned(),
                            },
                        );
                    }
                }
                repositories = repositories.with(
                    name.clone(),
                    RepositoryState {
                        last_successful_fetch_at: None,
                        last_classifications: classifications,
                    },
                );
            }
        }
    }
    Ok(repositories)
}

impl StateFile {
    fn holding(text: &str) -> StateFile {
        StateFile { contents: Ok(Some(text.as_bytes().to_vec())) }
    }

    fn load(&self) -> Result<State, StateError> {
        let mut replies = Vec::new();
        loop {
            match State::load(&path("/state/state.json"), &replies, 0) {
                Step::Ask(Request::ReadFile(file)) => {
                    assert_eq!(file, path("/state/state.json"));
                    replies.push(Reply::File(self.contents.clone()));
                }
                Step::Ask(Request::DecodeState { versioned, document }) => {
                    replies.push(Reply::StateDocument(decode_state(versioned, &document)));
                }
                Step::Ask(request) => panic!("unexpected {request:?}"),
                Step::Done(result, _) => return result,
            }
        }
    }
}

#[test]
fn missing_state_is_empty() {
    let state = StateFile { contents: Ok(None) }.load().unwrap();
    assert_eq!(state, State::default());
}

#[test]
fn saves_and_loads_current_state() {
    let file = path("/nested/state.json");
    match State::default().save(&file) {
        Request::SaveState { directory, path: target, state } => {
            assert_eq!(directory, path("/nested"));
            assert_eq!(target, file);
            assert_eq!(state, State::default());
        }
        request => panic!("unexpected {request:?}"),
    }
    assert_eq!(State::saved(&file, &Reply::Saved(Ok(()))), None);
    let written = format!(
        "{{\"schema_version\":{},\"tool_version\":\"0.1.0\",\"repositories\":{{}}}}",
        State::default().schema_version
    );
    assert_eq!(StateFile::holding(&written).load().unwrap(), State::default());
}

#[test]
fn migrates_unversioned_state() {
    let state = StateFile::holding("{\"repositories\":{}}").load().unwrap();
    assert_eq!(state.schema_version, STATE_SCHEMA_VERSION);
}

#[test]
fn rejects_future_schema_versions() {
    assert!(matches!(
        StateFile::holding("{\"schema_version\":999,\"tool_version\":\"next\",\"repositories\":{}}")
            .load(),
        Err(StateError::UnsupportedVersion { found: 999, .. })
    ));
}

#[test]
fn reports_malformed_state() {
    for contents in ["not json", "{\"schema_version\":\"one\"}", "{\"unknown\":true}"] {
        assert!(matches!(
            StateFile::holding(contents).load(),
            Err(StateError::Malformed { .. })
        ));
    }
}

#[test]
fn old_state_keeps_its_repositories() {
    let state = StateFile::holding(
        "{\"repositories\":{\"/src/p\":{\"last_classifications\":{\"/w\":{\"classification\":\"retained\",\"reason_code\":\"no_upstream\"}}}}}",
    )
    .load()
    .unwrap();
    assert_eq!(state.repositories.len(), 1);
    let repository = state.repositories.get("/src/p").unwrap();
    assert_eq!(
        repository.last_classifications.get("/w").unwrap().reason_code,
        "no_upstream"
    );
    assert!(repository.last_classifications.get("/other").is_none());
}

#[test]
fn state_errors_tell_what_failed() {
    let unreadable = StateFile { contents: Err("denied".to_owned()) }.load().unwrap_err();
    assert!(matches!(unreadable, StateError::Read { .. }));
    assert!(unreadable.message().contains("/state/state.json"));
    assert!(unreadable.message().contains("denied"));
    let file = path("/state/state.json");
    let directory = State::saved(
        &file,
        &Reply::Saved(Err(SaveFailure::CreateDirectory("x".to_owned()))),
    );
    assert!(matches!(directory, Some(StateError::CreateDirectory { .. })));
    let write = State::saved(&file, &Reply::Saved(Err(SaveFailure::Write("x".to_owned()))));
    assert!(matches!(write, Some(StateError::Write { .. })));
    let version = StateFile::holding("{\"schema_version\":7}").load().unwrap_err();
    assert!(version.message().contains('7'));
}

#[test]
fn the_last_value_of_a_key_counts() {
    let map = TextMap::new()
        .with("a".to_owned(), 1u32)
        .with("b".to_owned(), 2u32)
        .with("a".to_owned(), 3u32);
    assert_eq!(map.len(), 2);
    assert_eq!(map.get("a"), Some(&3));
    assert_eq!(map.get("b"), Some(&2));
    assert_eq!(map.get("c"), None);
}

#[test]
fn maps_with_the_same_content_are_equal() {
    let one = TextMap::new().with("b".to_owned(), 2u32).with("a".to_owned(), 1u32);
    let other = TextMap::new().with("a".to_owned(), 7u32).with("b".to_owned(), 2u32);
    assert_ne!(one, other);
    assert_eq!(one, other.with("a".to_owned(), 1u32));
    assert_eq!(one.entry(0), (&"a".to_owned(), &1));
    assert_eq!(one.entry(1), (&"b".to_owned(), &2));
}
