//! Schedules, on a machine that is made up.
use lop::cli::ScheduleCommand;
use lop::command::{
    CommandResult, EditorStatus, FileFailure, PathFailure, PathFailureKind, ProgramLine, Reply,
    Request, SettingsFailure,
};
use lop::config::RawConfig;
use lop::discovery::{DirectoryEntry, EntryKind};
use lop::filepath::{FilePath, ShownPath};
use lop::flow::Step;
use lop::launch_agent::{
    generate_launch_agent, is_in_step, read_launch_agent, xml_escape, xml_unescape, Programs,
    ScheduleEnvironment, ScheduleMode, SchedulePaths, ScheduleSettings,
};
use lop::paths::Environment;
use lop::schedule::backend::MacOsBackend;
use lop::schedule::environment::new_environment;
use lop::schedule::preflight::{preflight_credentials, remote_uses_ssh, validate_ssh_agent};
use lop::schedule::steps::{find_executable, load_settings, remove_if_exists, write_atomic};
use lop::schedule::{
    ensure_supported_platform, resolve_schedule_paths, run, ScheduleContext, ScheduleError,
    SchedulePhase,
};
use std::collections::BTreeMap;

fn path(text: &str) -> FilePath {
    FilePath::from_text(text)
}

fn shown(text: &str) -> ShownPath {
    ShownPath { path: path(text), shown: format!("{:?}", std::path::Path::new(text)) }
}

fn exited(code: i32, stdout: &str, stderr: &str) -> CommandResult {
    CommandResult::Exited {
        code: Some(code),
        stdout: stdout.as_bytes().to_vec(),
        stderr: stderr.as_bytes().to_vec(),
    }
}

fn fixture() -> (ScheduleSettings, ScheduleEnvironment, SchedulePaths) {
    (
        ScheduleSettings::default(),
        ScheduleEnvironment {
            programs: Programs {
                lop: path("/nix/store/lop/bin/lop"),
                git: path("/nix/store/git/bin/git"),
                worktrunk: path("/nix/store/worktrunk/bin/wt"),
                path: "/bin:/nix/store/git/bin:/nix/store/lop/bin:/nix/store/worktrunk/bin:/usr/bin"
                    .to_owned(),
            },
            ssh_auth_sock: Some(shown("/private/tmp/agent.sock")),
        },
        SchedulePaths {
            settings: path("/Users/test/.config/lop/schedule.toml"),
            launch_agent: path("/Users/test/Library/LaunchAgents/org.nixos.lop.plist"),
            log_directory: path("/Users/test/Library/Logs/org.nixos"),
        },
    )
}

#[test]
fn unsupported_platform_is_actionable() {
    assert_eq!(
        ensure_supported_platform("linux").unwrap_err().message(),
        "scheduling is unavailable on linux; scan and prune remain available"
    );
    assert!(ensure_supported_platform("macos").is_ok());
}

#[test]
fn launch_agent_matches_snapshot() {
    let (settings, environment, paths) = fixture();
    let agent = generate_launch_agent(&settings, &environment, &paths);
    let snapshot = [
        "<?xml version=\"1.0\" encoding=\"UTF-8\"?>",
        "<!DOCTYPE plist PUBLIC \"-//Apple//DTD PLIST 1.0//EN\" \"http://www.apple.com/DTDs/PropertyList-1.0.dtd\">",
        "<plist version=\"1.0\">",
        "<dict>",
        "    <key>Label</key>",
        "    <string>org.nixos.lop</string>",
        "    <key>ProgramArguments</key>",
        "    <array>",
        "        <string>/nix/store/lop/bin/lop</string>",
        "        <string>scan</string>",
        "    </array>",
        "    <key>RunAtLoad</key>",
        "    <true/>",
        "    <key>StartInterval</key>",
        "    <integer>1800</integer>",
        "    <key>EnvironmentVariables</key>",
        "    <dict>",
        "        <key>GIT_TERMINAL_PROMPT</key>",
        "        <string>0</string>",
        "        <key>GIT_SSH_COMMAND</key>",
        "        <string>/usr/bin/ssh -o BatchMode=yes</string>",
        "        <key>PATH</key>",
        "        <string>/bin:/nix/store/git/bin:/nix/store/lop/bin:/nix/store/worktrunk/bin:/usr/bin</string>",
        "        <key>SSH_AUTH_SOCK</key>",
        "        <string>/private/tmp/agent.sock</string>",
        "    </dict>",
        "    <key>StandardOutPath</key>",
        "    <string>/Users/test/Library/Logs/org.nixos/lop.out.log</string>",
        "    <key>StandardErrorPath</key>",
        "    <string>/Users/test/Library/Logs/org.nixos/lop.err.log</string>",
        "</dict>",
        "</plist>",
        "",
    ]
    .join("\n");
    assert_eq!(agent.contents, snapshot);
    assert!(!agent.contents.contains("KeepAlive"));
}

#[test]
fn prune_mode_is_explicitly_confirmed() {
    let (mut settings, environment, paths) = fixture();
    settings.mode = ScheduleMode::Prune;
    let agent = generate_launch_agent(&settings, &environment, &paths);
    assert!(agent.contents.contains("<string>prune</string>"));
    assert!(agent.contents.contains("<string>--yes</string>"));
}

#[test]
fn launch_agents_read_back() {
    for mode in [ScheduleMode::Scan, ScheduleMode::Prune] {
        let (_, mut environment, paths) = fixture();
        environment.programs.lop = path("/odd <dir> & \"co\"/lop's");
        environment.ssh_auth_sock = None;
        let settings = ScheduleSettings { mode, interval_seconds: 604_800 };
        let agent = generate_launch_agent(&settings, &environment, &paths);
        assert!(!agent.contents.contains("SSH_AUTH_SOCK"));
        let installed = read_launch_agent(&agent.contents);
        assert!(is_in_step(&installed, &settings));
        assert!(!is_in_step(
            &installed,
            &ScheduleSettings { mode, interval_seconds: 300 }
        ));
        let installed = installed.unwrap();
        assert_eq!(installed.interval_seconds, 604_800);
        assert_eq!(installed.arguments[0], "/odd <dir> & \"co\"/lop's");
        assert_eq!(installed.arguments[1], mode.label());
    }
    assert!(read_launch_agent("<plist/>").is_none());
    assert!(!is_in_step(&None, &ScheduleSettings::default()));
}

#[test]
fn launch_agents_are_read_in_any_layout() {
    let settings = ScheduleSettings { mode: ScheduleMode::Prune, interval_seconds: 600 };
    for document in [
        "<plist><dict><key>StartInterval</key><integer>600</integer><key>ProgramArguments</key><array><string>/lop &amp; co</string><string>prune</string><string>--yes</string></array></dict></plist>",
        "<?xml version=\"1.0\"?>\n<!-- <key>ProgramArguments</key> > -->\n<plist>\n\t<dict>\n\t\t<key>EnvironmentVariables</key>\n\t\t<dict>\n\t\t\t<key>StartInterval</key><string>7</string>\n\t\t</dict>\n\t\t<key>ProgramArguments</key> <!-- the command -->\n\t\t<array >\n\t\t\t<string>/lop &amp; co</string> <!-- first -->\n\t\t\t<string>prune</string><string>--yes</string>\n\t\t</array>\n\t\t<key>StartInterval</key>\n\t\t<integer> 600 </integer>\n\t</dict>\n</plist>",
    ] {
        let installed = read_launch_agent(document);
        assert!(is_in_step(&installed, &settings), "{installed:?}");
        let installed = installed.unwrap();
        assert_eq!(installed.arguments, ["/lop & co", "prune", "--yes"]);
        assert_eq!(installed.interval_seconds, 600);
    }
    let empty = read_launch_agent(
        "<dict><key>ProgramArguments</key><array><string>a</string><string/><string /></array><key>StartInterval</key><integer>1</integer></dict>",
    );
    assert_eq!(empty.unwrap().arguments, ["a", "", ""]);
    for document in [
        "",
        "bplist00",
        "<dict><key>ProgramArguments</key><array><string>a</string></array></dict>",
        "<dict><key>ProgramArguments</key><string>a</string><key>StartInterval</key><integer>1</integer></dict>",
        "<dict><key>ProgramArguments</key><array><integer>1</integer></array><key>StartInterval</key><integer>1</integer></dict>",
        "<dict><key>ProgramArguments</key><array/><key>StartInterval</key><integer>x</integer></dict>",
    ] {
        assert_eq!(read_launch_agent(document), None, "{document}");
    }
}

#[test]
fn marks_are_escaped() {
    let sample = "a<b>&\"c\"'d'&amp;";
    let expected = sample
        .replace('&', "&amp;")
        .replace('<', "&lt;")
        .replace('>', "&gt;")
        .replace('"', "&quot;")
        .replace('\'', "&apos;");
    assert_eq!(xml_escape(sample), expected);
    assert_eq!(xml_unescape(&expected), sample);
    assert_eq!(xml_unescape("&&lt"), "&&lt");
}

fn settings_from(reply: Reply) -> Result<ScheduleSettings, ScheduleError> {
    match load_settings(&path("/c/schedule.toml"), &vec![reply], 0) {
        Step::Done(result, 1) => result,
        step => panic!("unexpected {step:?}"),
    }
}

#[test]
fn settings_reject_unknown_fields_and_tight_intervals() {
    let tight = ScheduleSettings { mode: ScheduleMode::Scan, interval_seconds: 30 };
    assert!(settings_from(Reply::Settings(Ok(tight)))
        .unwrap_err()
        .message()
        .contains("between 300"));
    let unknown = SettingsFailure::Parse("unknown field `retry`".to_owned());
    assert!(settings_from(Reply::Settings(Err(unknown))).is_err());
}

#[test]
fn intervals_have_bounds() {
    for (interval_seconds, valid) in
        [(299, false), (300, true), (1_800, true), (604_800, true), (604_801, false)]
    {
        let settings = ScheduleSettings { mode: ScheduleMode::Prune, interval_seconds };
        assert_eq!(settings.validate().is_ok(), valid);
        assert_eq!(settings_from(Reply::Settings(Ok(settings))).is_ok(), valid);
    }
    assert_eq!(
        ScheduleSettings { mode: ScheduleMode::Scan, interval_seconds: 0 }.validate(),
        Err("interval_seconds must be between 300 and 604800".to_owned())
    );
    assert_eq!(
        ScheduleSettings::default().encode(),
        "# Managed by `lop schedule`; edit with `lop schedule edit`.\nmode = \"scan\"\ninterval_seconds = 1800\n"
    );
}

#[test]
fn recognizes_common_ssh_remote_syntax() {
    assert!(remote_uses_ssh("origin\tgit@github.com:owner/repo.git (fetch)"));
    assert!(remote_uses_ssh("origin ssh://git@example.test/repo (fetch)"));
    assert!(!remote_uses_ssh("origin https://github.com/owner/repo.git (fetch)"));
}

#[test]
fn other_remotes_need_no_ssh() {
    assert!(!remote_uses_ssh("origin"));
    assert!(!remote_uses_ssh(""));
    assert!(!remote_uses_ssh("origin /srv/repo:mirror@x (fetch)"));
    assert!(!remote_uses_ssh("origin C:/repo (fetch)"));
    assert!(remote_uses_ssh("  origin \t me@host:repo (push)"));
}

/// A machine on which schedules can be installed.
struct Machine {
    files: BTreeMap<String, Vec<u8>>,
    modes: BTreeMap<String, u32>,
    loaded: bool,
    settings: Result<ScheduleSettings, SettingsFailure>,
    edited: ScheduleSettings,
    repositories: Vec<&'static str>,
    remotes: &'static str,
    fetches: BTreeMap<&'static str, CommandResult>,
    agent: CommandResult,
    executables: Vec<&'static str>,
    sockets: Vec<&'static str>,
    failing_bootstraps: u32,
    failing_bootout: bool,
    unwritable: Vec<&'static str>,
    editor: Result<bool, String>,
    output: Vec<String>,
    warnings: Vec<String>,
    changes: u32,
}

const SETTINGS: &str = "/home/me/.config/lop/schedule.toml";
const AGENT: &str = "/home/me/Library/LaunchAgents/org.nixos.lop.plist";

impl Machine {
    fn new() -> Machine {
        Machine {
            files: BTreeMap::new(),
            modes: BTreeMap::new(),
            loaded: false,
            settings: Ok(ScheduleSettings::default()),
            edited: ScheduleSettings { mode: ScheduleMode::Prune, interval_seconds: 600 },
            repositories: vec!["/sources/one", "/sources/two"],
            remotes: "origin\thttps://example.test/r (fetch)\n",
            fetches: BTreeMap::new(),
            agent: exited(0, "256 key", ""),
            executables: vec!["/usr/bin/git", "/opt/bin/wt", "/usr/bin/ssh-add"],
            sockets: vec!["/tmp/agent"],
            failing_bootstraps: 0,
            failing_bootout: false,
            unwritable: Vec::new(),
            editor: Ok(true),
            output: Vec::new(),
            warnings: Vec::new(),
            changes: 0,
        }
    }

    fn program(&mut self, line: ProgramLine) -> CommandResult {
        let program = line.program.display();
        let words: Vec<&str> = line.arguments.iter().map(String::as_str).collect();
        assert_eq!(line.environment[0], ("GIT_OPTIONAL_LOCKS".to_owned(), "0".to_owned()));
        assert_eq!(line.removed, ["GIT_DIR", "GIT_WORK_TREE"]);
        match program.as_str() {
            "/usr/bin/id" => exited(0, "501\n", ""),
            "/bin/launchctl" => match words[0] {
                "print" => {
                    assert_eq!(words[1], "gui/501/org.nixos.lop");
                    exited(if self.loaded { 0 } else { 113 }, "", "")
                }
                "bootout" => {
                    self.changes += 1;
                    if self.failing_bootout {
                        return exited(5, "", "busy");
                    }
                    self.loaded = false;
                    exited(0, "", "")
                }
                "bootstrap" => {
                    self.changes += 1;
                    assert_eq!(words[1..], ["gui/501", AGENT]);
                    if self.failing_bootstraps > 0 {
                        self.failing_bootstraps -= 1;
                        return exited(5, "", "Input/output error");
                    }
                    self.loaded = true;
                    exited(0, "", "")
                }
                action => panic!("unexpected {action}"),
            },
            "/usr/bin/git" => match words[2] {
                "remote" => exited(0, self.remotes, ""),
                "fetch" => {
                    assert_eq!(
                        words[3..],
                        ["--all", "--prune", "--dry-run", "--no-recurse-submodules"]
                    );
                    assert!(line
                        .environment
                        .contains(&("GIT_TERMINAL_PROMPT".to_owned(), "0".to_owned())));
                    self.fetches.get(words[1]).cloned().unwrap_or(exited(0, "", ""))
                }
                command => panic!("unexpected {command}"),
            },
            "/usr/bin/ssh-add" => self.agent.clone(),
            program => panic!("unexpected {program}"),
        }
    }

    fn answer(&mut self, request: Request) -> Reply {
        match request {
            Request::RunProgram(line) => Reply::Command(self.program(line)),
            Request::Exists(place) => {
                Reply::Exists(self.files.contains_key(&place.display()))
            }
            Request::IsExecutable(place) => {
                let shown = place.display();
                Reply::Exists(self.executables.iter().any(|program| *program == shown))
            }
            Request::IsSocket(place) => {
                let shown = place.display();
                Reply::Exists(self.sockets.iter().any(|socket| *socket == shown))
            }
            Request::LoadSettings(place) => {
                let shown = place.display();
                if shown == SETTINGS {
                    return Reply::Settings(self.settings.clone());
                }
                assert!(self.files.contains_key(&shown));
                Reply::Settings(Ok(self.edited))
            }
            Request::LoadConfig(_) => Reply::Config(Ok(RawConfig {
                roots: vec!["/sources".to_owned()],
                scan_depth: 1,
                fetch_timeout_seconds: 7,
                check_processes: true,
            })),
            Request::ReadFile(place) => Reply::File(Ok(self.files.get(&place.display()).cloned())),
            Request::CreateDirectories(_) => Reply::Stored(Ok(())),
            Request::WriteFile { path: place, temporary, contents, mode } => {
                self.changes += 1;
                let shown = place.display();
                assert_ne!(temporary, place);
                assert_eq!(temporary.parent(), place.parent());
                if self.unwritable.iter().any(|file| *file == shown) {
                    return Reply::Stored(Err(FileFailure {
                        path: temporary,
                        message: "disk full".to_owned(),
                    }));
                }
                self.files.insert(shown.clone(), contents);
                self.modes.insert(shown, mode);
                Reply::Stored(Ok(()))
            }
            Request::RemoveFile(place) => {
                self.changes += 1;
                match self.files.remove(&place.display()) {
                    Some(_) => Reply::Removed(Ok(())),
                    None => Reply::Removed(Err(PathFailure {
                        kind: PathFailureKind::NotFound,
                        message: "No such file or directory".to_owned(),
                    })),
                }
            }
            Request::RunEditor { editor, path: place } => {
                assert_eq!(editor, path("vi"));
                assert!(self.files.contains_key(&place.display()));
                Reply::Edited(match &self.editor {
                    Ok(success) => Ok(EditorStatus {
                        success: *success,
                        shown: "exit status: 1".to_owned(),
                    }),
                    Err(error) => Err(error.clone()),
                })
            }
            Request::Print(line) => {
                self.output.push(line);
                Reply::Written(Ok(()))
            }
            Request::Warn(line) => {
                self.warnings.push(line);
                Reply::Written(Ok(()))
            }
            Request::Canonicalize(place) => Reply::Canonical(Ok(place)),
            Request::ListDirectory(place) => {
                let shown = place.display();
                let entry = |name: &str| DirectoryEntry {
                    name: path(name),
                    kind: EntryKind::Directory,
                };
                Reply::Directory(Ok(if shown == "/sources" {
                    self.repositories
                        .iter()
                        .map(|place| entry(place.strip_prefix("/sources/").unwrap()))
                        .collect()
                } else {
                    vec![entry(".git")]
                }))
            }
            Request::IsDirectory(_) => Reply::IsDirectory(Ok(true)),
            Request::Run(line) => {
                let place = line.directory.unwrap().display();
                Reply::Command(exited(0, &format!("{place}/.git\n"), ""))
            }
            request => panic!("unexpected {request:?}"),
        }
    }

    fn context() -> ScheduleContext {
        ScheduleContext {
            platform: "macos".to_owned(),
            environment: Environment {
                home: Some(path("/home/me")),
                xdg_config_home: None,
                xdg_state_home: None,
            },
            executable: Ok(path("/opt/lop/bin/lop")),
            search_path: Some(path("/usr/bin:/opt/bin")),
            ssh_auth_sock: Some(shown("/tmp/agent")),
            visual: Some(path("")),
            editor: Some(path("vi")),
            process: 4711,
        }
    }

    fn run_in(
        &mut self,
        command: ScheduleCommand,
        context: ScheduleContext,
    ) -> Result<(), ScheduleError> {
        self.output.clear();
        self.warnings.clear();
        let mut work = run(command, context);
        while let Some(request) = work.request() {
            let reply = self.answer(request);
            work = work.advance(reply);
        }
        match work.phase {
            SchedulePhase::Over(result) => result,
            phase => panic!("unexpected {phase:?}"),
        }
    }

    fn run(&mut self, command: ScheduleCommand) -> Result<(), ScheduleError> {
        self.run_in(command, Machine::context())
    }

    fn install(&mut self) -> Result<(), ScheduleError> {
        self.run(ScheduleCommand::Install { allow_degraded_preflight: false })
    }

    fn edit(&mut self) -> Result<(), ScheduleError> {
        self.run(ScheduleCommand::Edit { allow_degraded_preflight: false })
    }
}

#[test]
fn installs_in_scan_mode_and_uninstalls() {
    let mut machine = Machine::new();
    machine.install().unwrap();
    assert_eq!(
        machine.output,
        ["installed org.nixos.lop in scan mode every 1800 seconds"]
    );
    assert!(machine.loaded);
    assert_eq!(machine.modes[SETTINGS], 0o600);
    assert_eq!(machine.modes[AGENT], 0o644);
    assert_eq!(
        machine.files[SETTINGS],
        ScheduleSettings::default().encode().as_bytes()
    );
    let agent = String::from_utf8(machine.files[AGENT].clone()).unwrap();
    assert!(agent.contains("<string>/bin:/opt/bin:/opt/lop/bin:/usr/bin</string>"));
    assert!(agent.contains("<string>/tmp/agent</string>"));

    let before = machine.files.clone();
    machine.install().unwrap();
    assert_eq!(machine.files, before);
    assert!(machine.loaded);

    machine.run(ScheduleCommand::Uninstall).unwrap();
    assert_eq!(machine.output, ["org.nixos.lop was uninstalled"]);
    assert!(machine.files.is_empty());
    assert!(!machine.loaded);
    machine.run(ScheduleCommand::Uninstall).unwrap();
    assert_eq!(machine.output, ["org.nixos.lop is already uninstalled"]);
    assert!(machine.files.is_empty());
}

#[test]
fn installing_keeps_valid_settings() {
    let mut machine = Machine::new();
    let kept = ScheduleSettings { mode: ScheduleMode::Prune, interval_seconds: 7200 };
    machine.settings = Ok(kept);
    machine.files.insert(SETTINGS.to_owned(), b"mode and interval".to_vec());
    machine.install().unwrap();
    assert_eq!(
        machine.output,
        ["installed org.nixos.lop in prune mode every 7200 seconds"]
    );
    assert_eq!(machine.files[SETTINGS], kept.encode().as_bytes());
    assert!(machine.loaded);
}

#[test]
fn uninstalling_removes_what_is_left_and_nothing_else() {
    let log = "/home/me/Library/Logs/org.nixos/lop.log";
    let mut machine = Machine::new();
    machine.files.insert(SETTINGS.to_owned(), b"left".to_vec());
    machine.files.insert(log.to_owned(), b"lines".to_vec());
    machine.loaded = true;
    machine.run(ScheduleCommand::Uninstall).unwrap();
    assert_eq!(machine.output, ["org.nixos.lop was uninstalled"]);
    assert_eq!(machine.files.keys().collect::<Vec<_>>(), [log]);
    assert!(machine.loaded);

    machine.install().unwrap();
    machine.run(ScheduleCommand::Uninstall).unwrap();
    assert_eq!(machine.files.keys().collect::<Vec<_>>(), [log]);
    assert!(!machine.loaded);
}

#[test]
fn macos_backend_install_and_uninstall_are_idempotent() {
    let mut machine = Machine::new();
    let backend = MacOsBackend {
        launchctl: path("/bin/launchctl"),
        domain: "gui/501".to_owned(),
        launch_agent: path(AGENT),
        log_directory: path("/home/me/Library/Logs/org.nixos"),
    };
    let mut drive = |work: &dyn Fn(&Vec<Reply>) -> Step<Result<(), ScheduleError>>| {
        let mut replies = Vec::new();
        loop {
            match work(&replies) {
                Step::Ask(request) => {
                    let reply = machine.answer(request);
                    replies.push(reply);
                }
                Step::Done(result, _) => {
                    result.unwrap();
                    let agent = machine.files.get(AGENT).cloned();
                    return (agent, machine.loaded);
                }
            }
        }
    };
    let settings = path(SETTINGS);
    let install = |replies: &Vec<Reply>| {
        backend.install(&settings, b"settings".to_vec(), b"plist-v1".to_vec(), 1, replies, 0)
    };
    assert_eq!(drive(&install), (Some(b"plist-v1".to_vec()), true));
    assert_eq!(drive(&install), (Some(b"plist-v1".to_vec()), true));
    let present = |replies: &Vec<Reply>| backend.uninstall(&settings, true, 1, replies, 0);
    assert_eq!(drive(&present), (None, false));
    let absent = |replies: &Vec<Reply>| backend.uninstall(&settings, false, 1, replies, 0);
    assert_eq!(drive(&absent), (None, false));
}

#[test]
fn failed_reloads_restore_the_previous_schedule() {
    let mut machine = Machine::new();
    machine.install().unwrap();
    let before = machine.files.clone();
    machine.failing_bootstraps = 1;
    let error = machine
        .run(ScheduleCommand::Edit { allow_degraded_preflight: false })
        .unwrap_err();
    assert_eq!(error.message(), "launchctl bootstrap failed: Input/output error");
    assert_eq!(machine.files, before);
    assert!(machine.loaded);

    machine.failing_bootstraps = 2;
    let error = machine.edit().unwrap_err();
    assert!(matches!(error, ScheduleError::RollbackFailed { .. }));
    assert_eq!(
        error.message(),
        "launchctl bootstrap failed: Input/output error; restoring the previous schedule failed: launchctl bootstrap failed: Input/output error"
    );
    assert_eq!(machine.files, before);
}

#[test]
fn failed_first_installs_leave_nothing() {
    let mut machine = Machine::new();
    machine.failing_bootstraps = 1;
    assert!(machine.install().is_err());
    assert!(machine.files.is_empty());
    assert!(!machine.loaded);

    machine.unwritable = vec![AGENT];
    let error = machine.install().unwrap_err();
    assert!(error.message().starts_with("failed to write "));
    assert!(error.message().ends_with(": disk full"));
    assert!(machine.files.is_empty());
}

#[test]
fn failed_unloads_keep_the_previous_schedule() {
    let mut machine = Machine::new();
    machine.install().unwrap();
    let before = machine.files.clone();
    machine.failing_bootout = true;
    assert_eq!(
        machine.edit().unwrap_err().message(),
        "launchctl bootout failed: busy"
    );
    assert_eq!(machine.files, before);
    assert!(machine.loaded);
}

#[test]
fn edits_replace_the_settings() {
    let mut machine = Machine::new();
    assert!(matches!(machine.edit(), Err(ScheduleError::NotInstalled)));
    machine.install().unwrap();
    machine.edit().unwrap();
    assert_eq!(
        machine.output,
        ["updated org.nixos.lop; mode=prune, interval_seconds=600"]
    );
    let agent = String::from_utf8(machine.files[AGENT].clone()).unwrap();
    assert!(agent.contains("<string>--yes</string>"));
    assert_eq!(machine.files.len(), 2);

    let before = machine.files.clone();
    machine.edited.interval_seconds = 10;
    assert!(matches!(machine.edit(), Err(ScheduleError::InvalidSettings { .. })));
    assert_eq!(machine.files, before);
    machine.editor = Ok(false);
    assert_eq!(
        machine.edit().unwrap_err().message(),
        "editor \"vi\" failed with status exit status: 1"
    );
    machine.editor = Err("not found".to_owned());
    assert_eq!(machine.edit().unwrap_err().message(), "failed to run vi: not found");
    assert_eq!(machine.files, before);
    let mut context = Machine::context();
    context.editor = None;
    assert!(matches!(
        machine.run_in(ScheduleCommand::Edit { allow_degraded_preflight: false }, context),
        Err(ScheduleError::MissingEditor)
    ));
}

#[test]
fn degraded_preflight_warns_and_stops_only_pruning() {
    let mut machine = Machine::new();
    machine.fetches.insert("/sources/one", exited(128, "", "offline"));
    machine.fetches.insert("/sources/two", CommandResult::TimedOut);
    machine.install().unwrap();
    assert_eq!(
        machine.warnings,
        [
            "repository preflight failed for /sources/one: `git fetch --dry-run` failed with prompts disabled: offline",
            "repository preflight failed for /sources/two: scheduled command timed out: /usr/bin/git -C /sources/two fetch --all --prune --dry-run --no-recurse-submodules",
        ]
    );
    let before = machine.files.clone();
    assert!(matches!(machine.edit(), Err(ScheduleError::DegradedPreflight)));
    assert_eq!(machine.warnings.len(), 2);
    assert_eq!(machine.files, before);
    machine.run(ScheduleCommand::Edit { allow_degraded_preflight: true }).unwrap();
    assert_ne!(machine.files, before);
}

#[test]
fn status_reports_and_changes_nothing() {
    let mut machine = Machine::new();
    machine.run(ScheduleCommand::Status).unwrap();
    assert_eq!(machine.output, ["org.nixos.lop is not installed"]);
    machine.install().unwrap();
    let changes = machine.changes;
    machine.run(ScheduleCommand::Status).unwrap();
    assert_eq!(
        machine.output,
        [
            "org.nixos.lop is installed and loaded; mode=scan, interval_seconds=1800",
            "installed command: /opt/lop/bin/lop scan; interval_seconds=1800",
            "settings and LaunchAgent agree",
            "all repositories pass preflight",
        ]
    );
    machine.loaded = false;
    machine.settings =
        Ok(ScheduleSettings { mode: ScheduleMode::Prune, interval_seconds: 1_800 });
    machine.fetches.insert("/sources/two", exited(1, "", "offline"));
    machine.run(ScheduleCommand::Status).unwrap();
    assert_eq!(
        machine.output,
        [
            "org.nixos.lop is installed and not loaded; mode=prune, interval_seconds=1800",
            "installed command: /opt/lop/bin/lop scan; interval_seconds=1800",
            "settings and LaunchAgent have drifted apart; run `lop schedule install` to repair the schedule",
            "repository preflight failed for /sources/two: `git fetch --dry-run` failed with prompts disabled: offline",
        ]
    );
    machine.executables.clear();
    machine.run(ScheduleCommand::Status).unwrap();
    assert_eq!(
        machine.output[3],
        "repository preflight could not be completed: required executable \"git\" was not found in PATH; install it before scheduling Lop"
    );
    assert_eq!(machine.changes, changes);
    machine.files.insert(AGENT.to_owned(), b"bplist00".to_vec());
    machine.run(ScheduleCommand::Status).unwrap();
    assert_eq!(
        machine.output[1..3],
        [
            "the installed LaunchAgent does not tell what it runs and how often",
            "settings and LaunchAgent cannot be compared; run `lop schedule install` to repair the schedule",
        ]
    );
    machine.files.remove(SETTINGS);
    let error = machine.run(ScheduleCommand::Status).unwrap_err();
    assert!(error.message().contains("settings are missing"));
}

#[test]
fn other_platforms_are_asked_nothing() {
    let mut context = Machine::context();
    context.platform = "linux".to_owned();
    let work = run(ScheduleCommand::Uninstall, context);
    assert!(work.request().is_none());
    assert!(matches!(
        work.phase,
        SchedulePhase::Over(Err(ScheduleError::UnsupportedPlatform(_)))
    ));
}

#[test]
fn ssh_remotes_need_an_agent() {
    let mut machine = Machine::new();
    machine.remotes = "origin\tgit@example.test:r (fetch)\norigin\tgit@example.test:r (push)\n";
    machine.install().unwrap();
    machine.agent = exited(1, "", "");
    assert!(matches!(machine.install(), Err(ScheduleError::EmptySshAgent)));
    machine.agent = exited(2, "", "");
    assert_eq!(
        machine.install().unwrap_err().message(),
        "failed to inspect the SSH agent: command returned a nonzero status without an error message"
    );
    let mut context = Machine::context();
    context.ssh_auth_sock = None;
    let install = ScheduleCommand::Install { allow_degraded_preflight: true };
    assert!(matches!(
        machine.run_in(install, context),
        Err(ScheduleError::MissingSshAgent)
    ));
    machine.sockets.clear();
    assert_eq!(
        machine.install().unwrap_err().message(),
        "SSH_AUTH_SOCK \"/tmp/agent\" is not a usable Unix socket"
    );
    machine.remotes = "";
    assert!(matches!(machine.install(), Err(ScheduleError::InvalidSshAgent(_))));
}

#[test]
fn agents_are_looked_at_through_their_socket() {
    let socket = Some(shown("/tmp/agent"));
    let search = Some(path("/usr/bin"));
    let replies = vec![Reply::Exists(true), Reply::Exists(true)];
    match validate_ssh_agent(&socket, &search, &replies, 0) {
        Step::Ask(Request::RunProgram(line)) => {
            assert_eq!(line.program, path("/usr/bin/ssh-add"));
            assert_eq!(line.arguments, ["-l"]);
            assert_eq!(
                line.environment[1],
                ("SSH_AUTH_SOCK".to_owned(), "/tmp/agent".to_owned())
            );
            assert_eq!(line.timeout, 60);
        }
        step => panic!("unexpected {step:?}"),
    }
}

#[test]
fn the_first_program_in_the_search_path_counts() {
    let search = Some(path("/a::/b"));
    let find = |replies: Vec<Reply>| find_executable("git", &search, &replies, 0);
    assert_eq!(find(vec![]), Step::Ask(Request::IsExecutable(path("/a/git"))));
    assert_eq!(
        find(vec![Reply::Exists(false)]),
        Step::Ask(Request::IsExecutable(path("git")))
    );
    assert_eq!(
        find(vec![Reply::Exists(false), Reply::Exists(false), Reply::Exists(true)]),
        Step::Done(Ok(path("/b/git")), 3)
    );
    assert_eq!(
        find(vec![Reply::Exists(false), Reply::Exists(false), Reply::Exists(false)]),
        Step::Done(Err(ScheduleError::MissingExecutable { name: "git".to_owned() }), 3)
    );
    assert!(matches!(
        find_executable("git", &None, &Vec::new(), 0),
        Step::Done(Err(ScheduleError::MissingExecutable { .. }), 0)
    ));
}

#[test]
fn run_environments_list_each_directory_once() {
    let environment = new_environment(
        path("/usr/bin/lop"),
        path("/nix/git/bin/git"),
        path("/usr/bin/wt"),
        &Some(shown("")),
    )
    .unwrap();
    assert_eq!(environment.programs.path, "/bin:/nix/git/bin:/usr/bin");
    assert_eq!(environment.ssh_auth_sock, None);
    assert_eq!(
        new_environment(path("/a:b/lop"), path("/g/git"), path("/w/wt"), &None)
            .unwrap_err()
            .message(),
        "cannot schedule Lop because repository discovery failed: path segment contains separator `:`"
    );
}

#[test]
fn schedule_paths_follow_the_environment() {
    let resolve = |home: Option<&str>, config: Option<&str>| {
        resolve_schedule_paths(&Environment {
            home: home.map(path),
            xdg_config_home: config.map(shown),
            xdg_state_home: None,
        })
    };
    let paths = resolve(Some("/home/me"), Some("/config")).unwrap();
    assert_eq!(paths.settings, path("/config/lop/schedule.toml"));
    assert_eq!(paths.launch_agent, path(AGENT));
    assert_eq!(paths.log_directory, path("/home/me/Library/Logs/org.nixos"));
    assert_eq!(resolve(Some("/home/me"), Some("")).unwrap().settings, path(SETTINGS));
    assert_eq!(
        resolve(Some(""), Some("/config")).unwrap_err().message(),
        "HOME is not set; cannot resolve scheduling paths"
    );
    assert_eq!(
        resolve(Some("/home/me"), Some("relative")).unwrap_err().message(),
        "XDG_CONFIG_HOME must be an absolute path, but was \"relative\""
    );
}

#[test]
fn files_are_replaced_by_way_of_temporary_files() {
    let place = path("/d/file.toml");
    let write = |replies: Vec<Reply>| write_atomic(&place, &b"x".to_vec(), 0o600, 9, &replies, 0);
    assert_eq!(write(vec![]), Step::Ask(Request::CreateDirectories(path("/d"))));
    assert_eq!(
        write(vec![Reply::Stored(Ok(()))]),
        Step::Ask(Request::WriteFile {
            path: path("/d/file.toml"),
            temporary: path("/d/.file.toml.tmp-9"),
            contents: b"x".to_vec(),
            mode: 0o600,
        })
    );
    assert!(matches!(
        write_atomic(&path("/"), &Vec::new(), 0, 9, &Vec::new(), 0),
        Step::Done(Err(ScheduleError::Write { .. }), 0)
    ));
    let denied = PathFailure {
        kind: PathFailureKind::PermissionDenied,
        message: "denied".to_owned(),
    };
    match remove_if_exists(&place, &vec![Reply::Removed(Err(denied))], 0) {
        Step::Done(Err(error), 1) => {
            assert_eq!(error.message(), "failed to write /d/file.toml: denied");
        }
        step => panic!("unexpected {step:?}"),
    }
}

#[test]
fn users_have_numbers() {
    let (_, _, paths) = fixture();
    let system = |result: CommandResult| match MacOsBackend::system(
        &paths,
        &vec![Reply::Command(result)],
        0,
    ) {
        Step::Done(result, 1) => result,
        step => panic!("unexpected {step:?}"),
    };
    assert_eq!(system(exited(0, "501\n", "")).unwrap().domain, "gui/501");
    assert_eq!(
        system(exited(0, "me\n", "")).unwrap_err().message(),
        "failed to determine the current user id: me"
    );
    assert!(matches!(system(exited(0, "\n", "")), Err(ScheduleError::UserId(_))));
    assert!(matches!(system(exited(1, "", "x")), Err(ScheduleError::UserId(_))));
    assert!(matches!(
        system(CommandResult::Failed("x".to_owned())),
        Err(ScheduleError::Spawn { .. })
    ));
    assert_eq!(
        system(CommandResult::TimedOut).unwrap_err().message(),
        "scheduled command timed out: /usr/bin/id -u"
    );
}

#[test]
fn hard_failures_stop_the_installation() {
    let mut machine = Machine::new();
    machine.install().unwrap();
    let before = machine.files.clone();
    machine.settings = Err(SettingsFailure::Read("denied".to_owned()));
    assert_eq!(
        machine.install().unwrap_err(),
        ScheduleError::ReadSettings { path: path(SETTINGS), source: "denied".to_owned() }
    );
    machine.settings = Ok(ScheduleSettings::default());

    let mut context = Machine::context();
    context.environment.xdg_state_home = Some(shown("relative"));
    let install = ScheduleCommand::Install { allow_degraded_preflight: true };
    assert!(matches!(machine.run_in(install, context), Err(ScheduleError::Discovery(_))));
    let mut context = Machine::context();
    context.executable = Err("gone".to_owned());
    assert_eq!(
        machine.run_in(install, context).unwrap_err().message(),
        "failed to run current executable: gone"
    );
    assert_eq!(machine.files, before);
}

#[test]
fn remotes_that_cannot_be_listed_stop_the_installation() {
    let (_, environment, _) = fixture();
    let found = lop::discovery::Discovery {
        repositories: vec![lop::discovery::Repository {
            path: path("/r"),
            git_common_directory: path("/r/.git"),
        }],
        issues: Vec::new(),
    };
    let replies = vec![Reply::Command(exited(128, "", "broken config"))];
    match preflight_credentials(&environment, 5, &None, &found, &replies, 0) {
        Step::Done(Err(error), 1) => assert_eq!(
            error.message(),
            "noninteractive credential preflight failed for /r: broken config"
        ),
        step => panic!("unexpected {step:?}"),
    }
    let troubled = lop::discovery::Discovery {
        repositories: Vec::new(),
        issues: vec![
            lop::discovery::DiscoveryIssue {
                path: path("/a"),
                kind: lop::discovery::DiscoveryIssueKind::InaccessibleRoot,
                message: "gone".to_owned(),
            },
            lop::discovery::DiscoveryIssue {
                path: path("/b"),
                kind: lop::discovery::DiscoveryIssueKind::InvalidGitMetadata,
                message: "odd".to_owned(),
            },
        ],
    };
    match preflight_credentials(&environment, 5, &None, &troubled, &Vec::new(), 0) {
        Step::Done(Err(error), 0) => assert_eq!(
            error.message(),
            "cannot schedule Lop because repository discovery failed: /a: gone; /b: odd"
        ),
        step => panic!("unexpected {step:?}"),
    }
}

#[test]
fn unreadable_files_do_not_stop_an_installation_but_cannot_be_put_back() {
    let backend = MacOsBackend {
        launchctl: path("/bin/launchctl"),
        domain: "gui/501".to_owned(),
        launch_agent: path(AGENT),
        log_directory: path("/home/me/Library/Logs/org.nixos"),
    };
    for fails in [false, true] {
        let mut machine = Machine::new();
        machine.files.insert(SETTINGS.to_owned(), b"old".to_vec());
        machine.files.insert(AGENT.to_owned(), b"unreadable".to_vec());
        machine.loaded = true;
        machine.failing_bootstraps = if fails { 1 } else { 0 };
        let mut replies = Vec::new();
        let result = loop {
            match backend.install(&path(SETTINGS), b"s".to_vec(), b"a".to_vec(), 1, &replies, 0) {
                Step::Ask(Request::ReadFile(place)) if place == path(AGENT) => {
                    replies.push(Reply::File(Err("denied".to_owned())));
                }
                Step::Ask(request) => {
                    let reply = machine.answer(request);
                    replies.push(reply);
                }
                Step::Done(result, _) => break result,
            }
        };
        if fails {
            assert_eq!(
                result.unwrap_err().message(),
                format!("launchctl bootstrap failed: Input/output error; restoring the previous schedule failed: failed to read LaunchAgent at {AGENT}: denied")
            );
            assert_eq!(machine.files[SETTINGS], b"old");
        } else {
            result.unwrap();
            assert_eq!(machine.files[AGENT], b"a");
        }
        assert!(machine.loaded);
    }
}
