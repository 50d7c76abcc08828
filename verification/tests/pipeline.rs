//! The search for repositories, and whole runs, in a world that is made up.
use lop::cleanup::{BranchOutcome, RemovalRow};
use lop::cli::{Cli, Command};
use lop::command::{CommandLine, CommandResult, PathFailure, PathFailureKind, Reply, Request};
use lop::config::{ConfigFailure, RawConfig};
use lop::discovery::{discover, DirectoryEntry, Discovery, DiscoveryIssueKind, EntryKind};
use lop::filepath::FilePath;
use lop::herdr::{
    AcknowledgementDocument, Agent, AgentStatus, HerdrSession, Pane, ProcessInfoDocument, Snapshot,
    SnapshotDocument, Workspace, WorkspaceWorktree,
};
use lop::integration::{
    IntegrationPresence, IntegrationReason, ListEnvelope, ListItem, RelationPresence,
};
use lop::output::{Event, Summary, WorktreeOutcome};
use lop::paths::Environment;
use lop::run::Phase;
use lop::state::State;
use lop::textmap::Duplicate;
use lop::{run, Error};
use std::collections::BTreeMap;

const HEAD: &str = "0123456789012345678901234567890123456789";

fn path(text: &str) -> FilePath {
    FilePath::from_text(text)
}

fn exited(code: i32, stdout: &str, stderr: &str) -> CommandResult {
    CommandResult::Exited {
        code: Some(code),
        stdout: stdout.as_bytes().to_vec(),
        stderr: stderr.as_bytes().to_vec(),
    }
}

#[derive(Clone, PartialEq)]
enum Node {
    Directory,
    File,
    Link(String),
}

/// Files and directories.
#[derive(Default)]
struct Tree {
    nodes: BTreeMap<String, Node>,
}

impl Tree {
    fn add(&mut self, place: &str, node: Node) {
        let mut at = String::new();
        let names: Vec<&str> = place.split('/').filter(|name| !name.is_empty()).collect();
        for (i, name) in names.iter().enumerate() {
            at = format!("{at}/{name}");
            let kind = if i + 1 == names.len() { node.clone() } else { Node::Directory };
            self.nodes.entry(at.clone()).or_insert(kind);
        }
    }

    fn add_repository(&mut self, place: &str) {
        self.add(&format!("{place}/.git"), Node::Directory);
    }

    fn resolve(&self, place: &str, links: u32) -> Result<String, PathFailure> {
        let fail = |kind, message: &str| Err(PathFailure { kind, message: message.to_owned() });
        let mut at = String::new();
        let names: Vec<String> = place.split('/').map(str::to_owned).collect();
        for (i, name) in names.iter().enumerate() {
            if name.is_empty() || name == "." {
                continue;
            }
            if name == ".." {
                at = at.rsplit_once('/').map_or(String::new(), |(front, _)| front.to_owned());
                continue;
            }
            let next = format!("{at}/{name}");
            match self.nodes.get(&next) {
                None => return fail(PathFailureKind::NotFound, "No such file or directory"),
                Some(Node::Directory) => at = next,
                Some(Node::File) => {
                    if i + 1 < names.len() {
                        return fail(PathFailureKind::NotADirectory, "Not a directory");
                    }
                    at = next;
                }
                Some(Node::Link(target)) => {
                    if links == 0 {
                        return fail(
                            PathFailureKind::Other,
                            "Too many levels of symbolic links",
                        );
                    }
                    let rest = names[i + 1..].join("/");
                    return self.resolve(&format!("{target}/{rest}"), links - 1);
                }
            }
        }
        Ok(if at.is_empty() { "/".to_owned() } else { at })
    }

    fn list(&self, place: &str) -> Result<Vec<DirectoryEntry>, String> {
        if self.nodes.get(place) == Some(&Node::File) {
            return Err("Not a directory".to_owned());
        }
        let prefix = format!("{}/", place.trim_end_matches('/'));
        Ok(self
            .nodes
            .iter()
            .rev()
            .filter_map(|(at, node)| {
                let name = at.strip_prefix(&prefix)?;
                if name.contains('/') {
                    return None;
                }
                Some(DirectoryEntry {
                    name: path(name),
                    kind: if *node == Node::Directory {
                        EntryKind::Directory
                    } else {
                        EntryKind::Other
                    },
                })
            })
            .collect())
    }

    fn is_directory(&self, place: &str) -> bool {
        match self.resolve(place, 40) {
            Ok(found) => found == "/" || self.nodes.get(&found) == Some(&Node::Directory),
            Err(_) => false,
        }
    }

    fn remove(&mut self, place: &str) {
        let below = format!("{place}/");
        self.nodes.retain(|at, _| at != place && !at.starts_with(&below));
    }

    fn answer(&self, request: &Request) -> Option<Reply> {
        Some(match request {
            Request::Canonicalize(place) => {
                Reply::Canonical(self.resolve(&place.display(), 40).map(|found| path(&found)))
            }
            Request::Resolve(places) => Reply::Resolved(
                places
                    .iter()
                    .filter_map(|place| {
                        let found = self.resolve(&place.display(), 40).ok()?;
                        Some((place.clone(), path(&found)))
                    })
                    .collect(),
            ),
            Request::ListDirectory(place) => Reply::Directory(self.list(&place.display())),
            Request::IsDirectory(place) => {
                Reply::IsDirectory(Ok(self.is_directory(&place.display())))
            }
            Request::Exists(place) => {
                Reply::Exists(self.resolve(&place.display(), 40).is_ok())
            }
            Request::Run(line) if line.arguments[0] == "rev-parse" => {
                let place = line.directory.as_ref().unwrap().display();
                Reply::Command(exited(0, &format!("{place}/.git\n"), ""))
            }
            _ => return None,
        })
    }

    fn discover(&self, roots: &[&str], depth: u32) -> Discovery {
        let roots: Vec<FilePath> = roots.iter().map(|root| path(root)).collect();
        let mut search = discover(&roots, depth);
        while let Some(request) = search.request() {
            let reply = self.answer(&request).unwrap_or_else(|| panic!("unexpected {request:?}"));
            search = search.advance(reply);
        }
        search.finish()
    }
}

fn places(found: &Discovery) -> Vec<String> {
    found.repositories.iter().map(|repository| repository.path.display()).collect()
}

#[test]
fn finds_repositories_at_depth_boundaries_and_skips_ignored_locations() {
    let mut tree = Tree::default();
    tree.add_repository("/root/direct");
    tree.add_repository("/root/group/nested");
    tree.add_repository("/root/one/two/too-deep");
    tree.add_repository("/root/node_modules/dependency");
    tree.add_repository("/root/target/generated");
    tree.add("/root/linked-worktree/.git", Node::File);

    let result = tree.discover(&["/root"], 2);

    assert_eq!(places(&result), ["/root/direct", "/root/group/nested"]);
    assert!(result.issues.is_empty(), "{:?}", result.issues);
}

#[test]
fn deduplicates_duplicate_and_overlapping_roots_after_canonicalization() {
    let mut tree = Tree::default();
    tree.add_repository("/root/project");
    tree.add_repository("/root/group/nested");

    let result = tree.discover(&["/root", "/root", "/root/group", "/root/group/.."], 3);

    assert_eq!(result.repositories.len(), 2);
    assert!(result.issues.is_empty(), "{:?}", result.issues);
}

#[test]
fn canonicalizes_symlinked_roots() {
    let mut tree = Tree::default();
    tree.add_repository("/actual/project");
    tree.add("/alias", Node::Link("/actual".to_owned()));

    let result = tree.discover(&["/alias"], 1);

    assert_eq!(places(&result), ["/actual/project"]);
    assert!(result.issues.is_empty(), "{:?}", result.issues);
}

#[test]
fn deduplicates_distinct_working_paths_with_the_same_common_directory() {
    let mut tree = Tree::default();
    tree.add_repository("/root/first");
    tree.add("/root/second/.git", Node::Link("/root/first/.git".to_owned()));

    let result = tree.discover(&["/root"], 1);

    assert_eq!(places(&result), ["/root/first"]);
    assert!(result.issues.is_empty(), "{:?}", result.issues);
}

#[test]
fn reports_nonexistent_and_nondirectory_roots() {
    let mut tree = Tree::default();
    tree.add("/file", Node::File);

    let result = tree.discover(&["/missing", "/file"], 2);

    assert!(result.repositories.is_empty());
    assert_eq!(result.issues.len(), 2);
    assert!(result
        .issues
        .iter()
        .all(|issue| issue.kind == DiscoveryIssueKind::InaccessibleRoot));
}

#[test]
fn reports_unsafe_root_canonicalization() {
    let mut tree = Tree::default();
    tree.add("/left", Node::Link("/right".to_owned()));
    tree.add("/right", Node::Link("/left".to_owned()));

    let result = tree.discover(&["/left"], 1);

    assert!(result.repositories.is_empty());
    assert_eq!(result.issues.len(), 1);
    assert_eq!(
        result.issues[0].kind,
        DiscoveryIssueKind::UnsafeCanonicalization
    );
}

#[test]
fn repositories_come_in_the_order_of_their_paths() {
    let mut tree = Tree::default();
    tree.add_repository("/root/b");
    tree.add_repository("/root/a-b");
    tree.add_repository("/root/a/x");
    tree.add_repository("/root/a");
    let result = tree.discover(&["/root"], 3);
    assert_eq!(places(&result), ["/root/a", "/root/a/x", "/root/a-b", "/root/b"]);
}

#[test]
fn the_order_and_repetition_of_roots_do_not_matter() {
    let mut tree = Tree::default();
    tree.add_repository("/one/b");
    tree.add_repository("/one/group/a");
    tree.add_repository("/two/c");
    tree.add("/one/linked/.git", Node::Link("/two/c/.git".to_owned()));
    let expected = tree.discover(&["/one", "/two"], 2);
    assert_eq!(places(&expected), ["/one/b", "/one/group/a", "/one/linked"]);
    for roots in [
        vec!["/two", "/one"],
        vec!["/two", "/one", "/two", "/one"],
        vec!["/one", "/one", "/two"],
    ] {
        assert_eq!(tree.discover(&roots, 2).repositories, expected.repositories);
    }
}

#[test]
fn searches_find_exactly_what_lies_below_their_roots() {
    let mut tree = Tree::default();
    tree.add_repository("/root");
    tree.add_repository("/root/a/b");
    tree.add_repository("/root/a/b/c");
    tree.add_repository("/root/coverage/hidden");
    tree.add_repository("/elsewhere/linked");
    tree.add("/root/link", Node::Link("/elsewhere".to_owned()));
    tree.add("/root/a/.git", Node::File);
    tree.add("/root/empty/.github", Node::Directory);

    let found = tree.discover(&["/root"], 2);

    assert_eq!(places(&found), ["/root", "/root/a/b"]);
    assert!(found.issues.is_empty(), "{:?}", found.issues);
    assert_eq!(places(&tree.discover(&["/root"], 3)), ["/root", "/root/a/b", "/root/a/b/c"]);
    assert_eq!(places(&tree.discover(&["/root/coverage"], 1)), ["/root/coverage/hidden"]);
    assert_eq!(places(&tree.discover(&["/root/link"], 1)), ["/elsewhere/linked"]);
}

#[test]
fn deeper_searches_find_no_less() {
    let mut tree = Tree::default();
    tree.add_repository("/root/a");
    tree.add_repository("/root/b/c");
    tree.add_repository("/root/b/c/d/e");
    let mut before = 0;
    for depth in 0..6 {
        let found = tree.discover(&["/root"], depth);
        assert!(found.repositories.len() >= before);
        before = found.repositories.len();
    }
    assert_eq!(before, 3);
}

/// A worktree of a repository.
struct Worktree {
    place: String,
    branch: String,
    locked: bool,
    status: &'static str,
}

/// A repository.
struct Repository {
    place: String,
    fetch: CommandResult,
    references: Vec<String>,
    worktrees: Vec<Worktree>,
}

/// What Herdr shows.
#[derive(Clone)]
enum Shown {
    Nothing,
    Pane { place: String, focused: bool, status: AgentStatus },
    Stale { repository: String, checkout: String },
}

impl Shown {
    fn snapshot(&self) -> Snapshot {
        let mut snapshot = Snapshot {
            version: "0.9.0".to_owned(),
            protocol: 22,
            focused_pane_id: None,
            panes: Vec::new(),
            agents: Vec::new(),
            workspaces: Vec::new(),
        };
        let (place, focused, status, repository) = match self {
            Shown::Nothing => return snapshot,
            Shown::Pane { place, focused, status } => (place, *focused, Some(*status), None),
            Shown::Stale { repository, checkout } => (checkout, false, None, Some(repository)),
        };
        if focused {
            snapshot.focused_pane_id = Some("w1:p1".to_owned());
        }
        snapshot.panes.push(Pane {
            id: "w1:p1".to_owned(),
            workspace_id: "w1".to_owned(),
            focused,
            cwd: Some(path(place)),
            foreground_cwd: Some(path(place)),
            agent: status.map(|_| "pi".to_owned()),
            status: status.unwrap_or(AgentStatus::Unknown),
        });
        if let Some(status) = status {
            snapshot.agents.push(Agent {
                id: "w1:p1".to_owned(),
                workspace_id: "w1".to_owned(),
                cwd: Some(path(place)),
                foreground_cwd: Some(path(place)),
                status,
            });
        }
        snapshot.workspaces.push(Workspace {
            workspace_id: "w1".to_owned(),
            worktree: Some(WorkspaceWorktree {
                checkout_path: path(place),
                is_linked_worktree: repository.map(|_| true),
                repo_key: repository.map(|repository| path(&format!("{repository}/.git"))),
            }),
        });
        snapshot
    }
}

/// Herdr, before and after it is told to close a workspace.
struct Herdr {
    before: Shown,
    after: Shown,
    shell_pid: u32,
    closed: Option<String>,
    close_fails: bool,
    listing_after: Option<String>,
}

/// All that a run sees.
struct World {
    tree: Tree,
    repositories: Vec<Repository>,
    config: Option<RawConfig>,
    state: Option<State>,
    listing: String,
    herdr: Option<Herdr>,
    worktrunk: Option<&'static str>,
    listed: usize,
    removed: String,
    events: Vec<Event>,
    commands: Vec<String>,
    contended: bool,
}

impl World {
    fn new() -> World {
        let mut world = World {
            tree: Tree::default(),
            repositories: Vec::new(),
            config: Some(RawConfig {
                roots: vec!["/sources".to_owned()],
                scan_depth: 2,
                fetch_timeout_seconds: 10,
                check_processes: false,
            }),
            state: None,
            listing: String::new(),
            herdr: None,
            worktrunk: Some("wt 0.74.0\n"),
            listed: 0,
            removed: String::new(),
            events: Vec::new(),
            commands: Vec::new(),
            contended: false,
        };
        world.add_repository("/sources/repository");
        world
    }

    fn add_repository(&mut self, place: &str) {
        self.tree.add_repository(place);
        self.repositories.push(Repository {
            place: place.to_owned(),
            fetch: exited(0, "", ""),
            references: vec![
                "refs/heads/main".to_owned(),
                "refs/remotes/origin/main".to_owned(),
            ],
            worktrees: Vec::new(),
        });
    }

    fn integrated_worktree(&mut self, repository: usize, branch: &str) -> String {
        let place = format!("/worktrees/{branch}");
        self.tree.add(&place, Node::Directory);
        let repository = &mut self.repositories[repository];
        repository.references.push(format!("refs/heads/{branch}"));
        repository.worktrees.push(Worktree {
            place: place.clone(),
            branch: branch.to_owned(),
            locked: false,
            status: "",
        });
        place
    }

    fn repository(&mut self, place: &str) -> &mut Repository {
        self.repositories
            .iter_mut()
            .find(|repository| repository.place == place)
            .unwrap_or_else(|| panic!("no repository {place}"))
    }

    fn git(&mut self, line: &CommandLine) -> CommandResult {
        let words = &line.arguments;
        if words[0] == "-C" && words[2] == "status" {
            for repository in &self.repositories {
                for worktree in &repository.worktrees {
                    if worktree.place == words[1] {
                        return exited(0, worktree.status, "");
                    }
                }
            }
            panic!("no worktree {words:?}");
        }
        let place = line.directory.as_ref().unwrap().display();
        let repository = self.repository(&place);
        let last = &words[words.len() - 1];
        match words[0].as_str() {
            "fetch" => repository.fetch.clone(),
            "worktree" => {
                let mut list = format!("worktree {place}\0HEAD {HEAD}\0branch refs/heads/main\0\0");
                for worktree in &repository.worktrees {
                    list.push_str(&format!(
                        "worktree {}\0HEAD {HEAD}\0branch refs/heads/{}\0{}\0",
                        worktree.place,
                        worktree.branch,
                        if worktree.locked { "locked\0" } else { "" },
                    ));
                }
                exited(0, &list, "")
            }
            "show-ref" => exited(if repository.references.contains(last) { 0 } else { 1 }, "", ""),
            "for-each-ref" => exited(0, &format!("{}\n", last.replace("refs/heads", "refs/remotes/origin")), ""),
            _ => panic!("unexpected {words:?}"),
        }
    }

    fn worktrunk(&mut self, line: &CommandLine) -> CommandResult {
        let words = &line.arguments;
        let version = match self.worktrunk {
            None => return CommandResult::Failed("No such file or directory".to_owned()),
            Some(version) => version,
        };
        if words[0] == "--version" {
            return exited(0, version, "");
        }
        if words.iter().any(|word| word == "list") {
            self.listed = self
                .repositories
                .iter()
                .position(|repository| repository.place == words[1])
                .unwrap();
            return exited(0, "list", "");
        }
        assert_eq!(words[2], "remove");
        let place = words[6].clone();
        let repository = self.repository(&words[1]);
        let position = repository
            .worktrees
            .iter()
            .position(|worktree| worktree.place == place)
            .unwrap();
        let worktree = repository.worktrees.remove(position);
        let branch = format!("refs/heads/{}", worktree.branch);
        repository.references.retain(|reference| *reference != branch);
        self.tree.remove(&place);
        self.removed = place;
        exited(0, "removed", "")
    }

    fn herdr(&mut self, line: &CommandLine) -> CommandResult {
        let shown = line.arguments.join(" ");
        let herdr = match &mut self.herdr {
            None => return CommandResult::Failed("No such file or directory".to_owned()),
            Some(herdr) => herdr,
        };
        match shown.as_str() {
            "session list --json" => exited(0, "sessions", ""),
            "--session test api snapshot" => exited(0, "snapshot", ""),
            "--session test pane process-info --pane w1:p1" => exited(0, "processes", ""),
            _ => {
                herdr.closed = Some(shown);
                if herdr.close_fails {
                    return exited(1, "", "retirement-failed\n");
                }
                if let Some(listing) = herdr.listing_after.take() {
                    self.listing = listing;
                }
                exited(0, "closed", "")
            }
        }
    }

    fn answer(&mut self, request: Request) -> Reply {
        if let Some(reply) = self.tree.answer(&request) {
            return reply;
        }
        match request {
            Request::AcquireLock { .. } => Reply::Lock(if self.contended {
                Err(lop::lock::LockFailure::Contended)
            } else {
                Ok(())
            }),
            Request::LoadConfig(_) => Reply::Config(match &self.config {
                None => Err(ConfigFailure::Missing),
                Some(config) => Ok(config.clone()),
            }),
            Request::ReadFile(_) => {
                Reply::File(Ok(self.state.as_ref().map(|_| b"{\"schema_version\":1}".to_vec())))
            }
            Request::DecodeState { versioned, .. } => {
                assert!(versioned);
                Reply::StateDocument(Ok(self.state.as_ref().unwrap().repositories.duplicate()))
            }
            Request::SaveState { state, .. } => {
                self.state = Some(state);
                Reply::Saved(Ok(()))
            }
            Request::Emit(event) => {
                self.events.push(event);
                Reply::Written(Ok(()))
            }
            Request::Flush => Reply::Written(Ok(())),
            Request::Run(line) => {
                self.commands.push(format!("{} {}", line.program, line.arguments.join(" ")));
                Reply::Command(match line.program.as_str() {
                    "git" => self.git(&line),
                    "wt" => self.worktrunk(&line),
                    "herdr" => self.herdr(&line),
                    program => panic!("unexpected {program}"),
                })
            }
            Request::ListCurrentDirectories(_) => {
                Reply::CurrentDirectories(Some(exited(0, &self.listing, "")))
            }
            Request::DecodeList(_) => {
                let repository = &self.repositories[self.listed];
                Reply::List(Ok(ListEnvelope {
                    schema: 2,
                    default_branch: Some("main".to_owned()),
                    items: repository
                        .worktrees
                        .iter()
                        .map(|worktree| ListItem {
                            branch: Some(worktree.branch.clone()),
                            head: Some(HEAD.to_owned()),
                            worktree: Some(path(&worktree.place)),
                            default_branch: RelationPresence::Value(IntegrationPresence::Value(
                                IntegrationReason::SameCommit,
                            )),
                        })
                        .collect(),
                }))
            }
            Request::DecodeRemoval(_) => Reply::Removal(Ok(vec![RemovalRow {
                kind: "worktree".to_owned(),
                branch: Some("feature".to_owned()),
                path: path(&self.removed),
                branch_outcome: BranchOutcome::Deleted,
                branch_checked_out_at: None,
            }])),
            Request::DecodeSessions(_) => Reply::Sessions(Ok(vec![HerdrSession {
                name: "test".to_owned(),
                running: true,
            }])),
            Request::DecodeSnapshot(_) => {
                let herdr = self.herdr.as_ref().unwrap();
                let shown = if herdr.closed.is_some() { &herdr.after } else { &herdr.before };
                Reply::Snapshot(Ok(SnapshotDocument {
                    kind: "session_snapshot".to_owned(),
                    snapshot: shown.snapshot(),
                }))
            }
            Request::DecodeProcessInfo(_) => Reply::ProcessInfo(Ok(ProcessInfoDocument {
                kind: "pane_process_info".to_owned(),
                pane_id: "w1:p1".to_owned(),
                shell_pid: Some(self.herdr.as_ref().unwrap().shell_pid),
                foreground_processes: Vec::new(),
            })),
            Request::DecodeAcknowledgement(_) => {
                Reply::Acknowledgement(Ok(AcknowledgementDocument {
                    kind: "workspace_closed".to_owned(),
                    workspace_id: Some("w1".to_owned()),
                }))
            }
            request => panic!("unexpected {request:?}"),
        }
    }

    fn run(&mut self, command: Command) -> Result<Summary, Error> {
        self.events.clear();
        self.commands.clear();
        let environment = Environment {
            home: Some(path("/home/me")),
            xdg_config_home: None,
            xdg_state_home: None,
        };
        let mut work = run(Cli { command }, &environment).unwrap();
        while let Some(request) = work.request() {
            let reply = self.answer(request);
            work = work.advance(reply);
        }
        assert!(work.outcome().is_some());
        match work.phase {
            Phase::Finished(result) => result,
            phase => panic!("unexpected {phase:?}"),
        }
    }

    fn prune(&mut self) -> Summary {
        self.run(Command::Prune { yes: true }).unwrap()
    }

    fn scan(&mut self) -> Summary {
        self.run(Command::Scan).unwrap()
    }

    fn record(&self, wanted: &str) -> (&'static str, &'static str, Option<String>, bool) {
        for event in &self.events {
            if let Event::Worktree {
                path, outcome, reason_code, message, classification_changed, ..
            } = event
            {
                if path.display() == wanted {
                    return (
                        outcome.name(),
                        reason_code.name(),
                        message.clone(),
                        *classification_changed,
                    );
                }
            }
        }
        panic!("no record for {wanted} in {:?}", self.events)
    }

    fn outcome(&self, wanted: &str) -> (&'static str, &'static str) {
        let (outcome, reason, _, _) = self.record(wanted);
        (outcome, reason)
    }

    fn is_there(&self, place: &str) -> bool {
        self.tree.resolve(place, 40).is_ok()
    }

    fn reference(&mut self, repository: usize, branch: &str) -> bool {
        self.repositories[repository].references.contains(&format!("refs/heads/{branch}"))
    }

    fn stateful_herdr(&mut self, before: Shown, after: Shown, shell_pid: u32) {
        self.herdr = Some(Herdr {
            before,
            after,
            shell_pid,
            closed: None,
            close_fails: false,
            listing_after: None,
        });
    }

    fn closed(&self) -> bool {
        self.herdr.as_ref().unwrap().closed.is_some()
    }
}

#[test]
fn missing_configuration_is_an_operational_failure() {
    let mut world = World::new();
    world.config = None;
    let error = world.run(Command::Scan).unwrap_err();
    assert!(error.message().contains("configuration not found"));
}

#[test]
fn scan_emits_ndjson_and_initializes_state() {
    let mut world = World::new();
    world.config.as_mut().unwrap().roots = vec!["/empty".to_owned()];
    world.tree.add("/empty", Node::Directory);
    let summary = world.scan();
    assert_eq!(summary.exit_code(), 0);
    assert_eq!(world.events.len(), 2);
    match &world.events[0] {
        Event::RunStarted { command, apply, .. } => {
            assert_eq!(*command, lop::output::CommandName::Scan);
            assert!(!apply);
        }
        event => panic!("unexpected {event:?}"),
    }
    match &world.events[1] {
        Event::Summary { summary } => assert_eq!(summary.operational_failures, 0),
        event => panic!("unexpected {event:?}"),
    }
    assert!(world.state.is_some());
}

#[test]
fn scan_reports_discovered_repositories() {
    let mut world = World::new();
    let summary = world.scan();
    assert_eq!(summary.exit_code(), 0);
    match &world.events[1] {
        Event::Repository { path: place, reason_code, .. } => {
            assert_eq!(*place, path("/sources/repository"));
            assert_eq!(reason_code.name(), "ok");
        }
        event => panic!("unexpected {event:?}"),
    }
    assert_eq!(summary.repositories_scanned, 1);
}

#[test]
fn inaccessible_scan_root_is_an_operational_failure() {
    let mut world = World::new();
    world.config.as_mut().unwrap().roots = vec!["/missing".to_owned()];
    let summary = world.scan();
    assert_eq!(summary.exit_code(), 1);
    match &world.events[1] {
        Event::DiscoveryFailure { reason_code, .. } => {
            assert_eq!(reason_code.name(), "inaccessible_root");
        }
        event => panic!("unexpected {event:?}"),
    }
    assert_eq!(summary.operational_failures, 1);
}

#[test]
fn prune_requires_yes_to_apply() {
    for yes in [false, true] {
        let mut world = World::new();
        let summary = world.run(Command::Prune { yes }).unwrap();
        assert_eq!(summary.exit_code(), 0);
        match &world.events[0] {
            Event::RunStarted { apply, .. } => assert_eq!(*apply, yes),
            event => panic!("unexpected {event:?}"),
        }
    }
}

#[test]
fn successful_cleanup_removes_checkout_and_integrated_local_branch() {
    let mut world = World::new();
    let worktree = world.integrated_worktree(0, "finished");

    let summary = world.prune();

    assert_eq!(summary.exit_code(), 0);
    assert!(!world.is_there(&worktree));
    assert!(!world.reference(0, "finished"));
    assert_eq!(world.outcome(&worktree), ("removed", "branch_deleted"));
    assert_eq!(summary.removals, 1);
}

#[test]
fn failed_repository_is_untouched_while_healthy_repository_is_pruned() {
    let mut world = World::new();
    let healthy = world.integrated_worktree(0, "healthy-finished");
    world.add_repository("/sources/broken");
    let failed = world.integrated_worktree(1, "candidate");
    world.repositories[1].fetch = exited(128, "", "does not appear to be a git repository");

    let summary = world.prune();

    assert_eq!(summary.exit_code(), 1);
    assert!(!world.is_there(&healthy));
    assert!(world.is_there(&failed));
    assert!(world.reference(1, "candidate"));
    assert_eq!(world.outcome(&failed), ("skipped", "fetch_failed"));
    assert_eq!(summary.repositories_scanned, 2);
    assert_eq!(summary.removals, 1);
}

#[test]
fn dirty_staged_and_untracked_files_survive_cleanup_attempts() {
    let mut world = World::new();
    let mut kept = Vec::new();
    for (branch, status) in [
        ("modified", " M base.txt\0"),
        ("staged", "A  staged.txt\0"),
        ("untracked", "?? untracked.txt\0"),
    ] {
        kept.push((world.integrated_worktree(0, branch), branch));
        world.repositories[0].worktrees.last_mut().unwrap().status = status;
    }

    let summary = world.prune();

    assert_eq!(summary.exit_code(), 0);
    for (worktree, branch) in kept {
        assert!(world.is_there(&worktree));
        assert_eq!(world.outcome(&worktree), ("refused", "dirty_worktree"));
        assert!(world.reference(0, branch));
    }
}

#[test]
fn live_process_current_directory_refuses_removal() {
    let mut world = World::new();
    let worktree = world.integrated_worktree(0, "in-use");
    world.config.as_mut().unwrap().check_processes = true;
    world.listing = format!("p77\0fcwd\0n{worktree}\0\n");

    let summary = world.prune();

    assert_eq!(summary.exit_code(), 0);
    assert!(world.is_there(&worktree));
    assert!(world.reference(0, "in-use"));
    assert_eq!(world.outcome(&worktree), ("refused", "process_using_worktree"));
}

#[test]
fn locked_worktree_is_refused_without_invoking_removal() {
    let mut world = World::new();
    let worktree = world.integrated_worktree(0, "locked");
    world.repositories[0].worktrees[0].locked = true;

    let summary = world.prune();

    assert_eq!(summary.exit_code(), 0);
    assert!(world.is_there(&worktree));
    assert!(world.reference(0, "locked"));
    assert_eq!(world.outcome(&worktree), ("refused", "locked_worktree"));
    assert!(!world.commands.iter().any(|command| command.contains(" remove ")));
}

#[test]
fn herdr_retirement_failure_preserves_worktree_and_branch() {
    let mut world = World::new();
    let worktree = world.integrated_worktree(0, "herdr-cleanup-failure");
    let shown = Shown::Pane {
        place: worktree.clone(),
        focused: false,
        status: AgentStatus::Idle,
    };
    world.stateful_herdr(shown.clone(), shown, 41);
    world.herdr.as_mut().unwrap().close_fails = true;

    let summary = world.prune();

    assert_eq!(summary.exit_code(), 1);
    assert!(world.is_there(&worktree));
    assert!(world.reference(0, "herdr-cleanup-failure"));
    assert_eq!(world.outcome(&worktree), ("refused", "herdr_retirement_failed"));
    let (_, _, message, _) = world.record(&worktree);
    assert!(message.unwrap().contains("retirement-failed"));
    assert_eq!(summary.removals, 0);
    assert_eq!(summary.operational_failures, 1);
    assert_eq!(
        world.herdr.as_ref().unwrap().closed.as_deref(),
        Some("--session test workspace close w1")
    );
}

#[test]
fn lop_previews_and_retires_stale_herdr_workspace() {
    let mut world = World::new();
    let checkout = "/worktrees/herdr-stale".to_owned();
    world.tree.add("/worktrees", Node::Directory);
    world.stateful_herdr(
        Shown::Stale {
            repository: "/sources/repository".to_owned(),
            checkout: checkout.clone(),
        },
        Shown::Nothing,
        41,
    );

    let preview = world.scan();

    assert_eq!(preview.exit_code(), 0);
    assert!(!world.closed());
    assert_eq!(world.outcome(&checkout), ("candidate", "herdr_stale_workspace_pending"));

    let applied = world.prune();

    assert_eq!(applied.exit_code(), 0);
    assert!(world.closed());
    assert_eq!(world.outcome(&checkout), ("removed", "herdr_stale_workspace_retired"));
}

#[test]
fn scheduled_scan_discovers_herdr_without_inherited_session_context() {
    let mut world = World::new();
    let worktree = world.integrated_worktree(0, "herdr-preview");
    let before = Shown::Pane {
        place: worktree.clone(),
        focused: false,
        status: AgentStatus::Idle,
    };
    world.stateful_herdr(before, Shown::Nothing, 41);

    let summary = world.scan();

    assert_eq!(summary.exit_code(), 0);
    assert!(world.is_there(&worktree));
    assert!(!world.closed());
    assert_eq!(world.outcome(&worktree), ("candidate", "herdr_coordination_pending"));
}

#[test]
fn idle_herdr_workspace_is_retired_before_successful_removal() {
    let mut world = World::new();
    let worktree = world.integrated_worktree(0, "herdr-idle-success");
    let before = Shown::Pane {
        place: worktree.clone(),
        focused: false,
        status: AgentStatus::Done,
    };
    world.stateful_herdr(before, Shown::Nothing, 41);

    let summary = world.prune();

    assert_eq!(summary.exit_code(), 0);
    assert!(world.closed());
    assert!(!world.is_there(&worktree));
    assert!(!world.reference(0, "herdr-idle-success"));
    assert_eq!(world.outcome(&worktree).0, "removed");
    let close = world.commands.iter().position(|command| command.contains("workspace close"));
    let remove = world.commands.iter().position(|command| command.contains(" remove "));
    assert!(close.unwrap() < remove.unwrap());
}

#[test]
fn focus_race_after_workspace_retirement_refuses_removal() {
    let mut world = World::new();
    let worktree = world.integrated_worktree(0, "herdr-focus-race");
    let shown = |focused| Shown::Pane {
        place: worktree.clone(),
        focused,
        status: AgentStatus::Idle,
    };
    world.stateful_herdr(shown(false), shown(true), 40);

    let summary = world.prune();

    assert_eq!(summary.exit_code(), 0);
    assert!(world.closed());
    assert!(world.is_there(&worktree));
    assert!(world.reference(0, "herdr-focus-race"));
    assert_eq!(world.outcome(&worktree), ("refused", "herdr_focused_pane"));
}

#[test]
fn agent_race_after_workspace_retirement_refuses_removal() {
    let mut world = World::new();
    let worktree = world.integrated_worktree(0, "herdr-agent-race");
    let shown = |status| Shown::Pane { place: worktree.clone(), focused: false, status };
    world.stateful_herdr(shown(AgentStatus::Idle), shown(AgentStatus::Working), 41);

    let summary = world.prune();

    assert_eq!(summary.exit_code(), 0);
    assert!(world.closed());
    assert!(world.is_there(&worktree));
    assert!(world.reference(0, "herdr-agent-race"));
    assert_eq!(world.outcome(&worktree), ("refused", "herdr_active_agent"));
}

#[test]
fn attributed_idle_herdr_process_is_retired_before_removal() {
    let mut world = World::new();
    let worktree = world.integrated_worktree(0, "herdr-idle-process");
    world.config.as_mut().unwrap().check_processes = true;
    world.listing = format!("p55\0fcwd\0n{worktree}\0\n");
    let before = Shown::Pane {
        place: worktree.clone(),
        focused: false,
        status: AgentStatus::Idle,
    };
    world.stateful_herdr(before, Shown::Nothing, 55);
    world.herdr.as_mut().unwrap().listing_after = Some(String::new());

    let summary = world.prune();

    assert_eq!(summary.exit_code(), 0);
    assert!(world.closed());
    assert!(!world.is_there(&worktree));
    assert!(!world.reference(0, "herdr-idle-process"));
    assert_eq!(world.outcome(&worktree).0, "removed");
}

#[test]
fn process_appearing_during_herdr_retirement_refuses_removal() {
    let mut world = World::new();
    let worktree = world.integrated_worktree(0, "herdr-process-race");
    world.config.as_mut().unwrap().check_processes = true;
    let before = Shown::Pane {
        place: worktree.clone(),
        focused: false,
        status: AgentStatus::Idle,
    };
    world.stateful_herdr(before, Shown::Nothing, 999_999);
    world.herdr.as_mut().unwrap().listing_after = Some(format!("p88\0fcwd\0n{worktree}\0\n"));

    let summary = world.prune();

    assert_eq!(summary.exit_code(), 0);
    assert!(world.closed());
    assert!(world.is_there(&worktree));
    assert!(world.reference(0, "herdr-process-race"));
    assert_eq!(world.outcome(&worktree), ("refused", "process_using_worktree"));
}

#[test]
fn repeated_scans_report_no_change() {
    let mut world = World::new();
    let worktree = world.integrated_worktree(0, "finished");
    world.scan();
    assert!(world.record(&worktree).3);
    world.scan();
    assert!(!world.record(&worktree).3);
    assert_eq!(world.outcome(&worktree), ("candidate", "integrated_same_commit"));
    world.repositories[0].worktrees[0].status = "?? file\0";
    world.scan();
    assert_eq!(world.outcome(&worktree), ("refused", "dirty_worktree"));
    assert!(world.record(&worktree).3);
}

#[test]
fn dry_runs_change_nothing() {
    let mut world = World::new();
    let worktree = world.integrated_worktree(0, "finished");
    for command in [Command::Scan, Command::Prune { yes: false }] {
        let summary = world.run(command).unwrap();
        assert_eq!(summary.removals, 0);
        assert_eq!(summary.candidates, 1);
        assert!(world.is_there(&worktree));
        assert!(!world.commands.iter().any(|command| command.contains(" remove ")));
        assert!(!world.events.iter().any(|event| matches!(
            event,
            Event::Worktree { outcome: WorktreeOutcome::Removed, .. }
        )));
    }
}

#[test]
fn state_is_memory_and_no_inventory() {
    let mut world = World::new();
    world.integrated_worktree(0, "finished");
    world.scan();
    let repository = world.state.as_ref().unwrap().repositories.get("/sources/repository/.git");
    let listed = repository.or_else(|| {
        world.state.as_ref().unwrap().repositories.get("/sources/repository")
    });
    assert!(listed.is_some());
    world.repositories.clear();
    world.tree.remove("/sources/repository");
    let summary = world.scan();
    assert_eq!(summary.repositories_scanned, 0);
    assert_eq!(summary.worktrees_inspected, 0);
}

#[test]
fn missing_worktrunk_retains_worktrees() {
    let mut world = World::new();
    let worktree = world.integrated_worktree(0, "finished");
    world.worktrunk = None;
    let summary = world.prune();
    assert_eq!(summary.exit_code(), 1);
    assert!(world.is_there(&worktree));
    assert_eq!(world.outcome(&worktree).1, "worktrunk_failed");
    world.worktrunk = Some("wt 0.65.9\n");
    world.prune();
    assert!(world.is_there(&worktree));
}

#[test]
fn overlapping_runs_are_refused() {
    let mut world = World::new();
    world.contended = true;
    let error = world.run(Command::Scan).unwrap_err();
    assert!(matches!(error, Error::Lock(_)));
    assert!(error.message().contains("another Lop run is already active"));
    assert!(world.events.is_empty());
}

#[test]
fn scheduling_commands_are_not_runs() {
    let mut world = World::new();
    let error = world
        .run(Command::Schedule { command: lop::cli::ScheduleCommand::Status })
        .unwrap_err();
    assert_eq!(
        error.message(),
        "schedule commands must be run through the scheduling interface"
    );
}

#[test]
fn removed_is_the_outcome_of_one_worktree_each() {
    let mut world = World::new();
    world.integrated_worktree(0, "one");
    world.integrated_worktree(0, "two");
    let summary = world.prune();
    assert_eq!(summary.removals, 2);
    let removed = world
        .events
        .iter()
        .filter(|event| {
            matches!(event, Event::Worktree { outcome: WorktreeOutcome::Removed, .. })
        })
        .count();
    assert_eq!(removed, 2);
    assert!(matches!(world.events.last(), Some(Event::Summary { .. })));
}

#[test]
fn runs_fail_with_what_stopped_them() {
    let environment = Environment {
        home: None,
        xdg_config_home: None,
        xdg_state_home: None,
    };
    assert!(matches!(
        run(Cli { command: Command::Scan }, &environment),
        Err(Error::Paths(_))
    ));
    let mut world = World::new();
    world.config.as_mut().unwrap().scan_depth = 0;
    assert!(matches!(world.run(Command::Scan), Err(Error::Config(_))));

    let mut world = World::new();
    let fail = |world: &mut World, wanted: fn(&Request) -> bool, answer: fn() -> Reply| {
        let environment = Environment {
            home: Some(path("/home/me")),
            xdg_config_home: None,
            xdg_state_home: None,
        };
        let mut work = run(Cli { command: Command::Scan }, &environment).unwrap();
        while let Some(request) = work.request() {
            let reply = if wanted(&request) { answer() } else { world.answer(request) };
            work = work.advance(reply);
        }
        match work.phase {
            Phase::Finished(Err(error)) => error,
            phase => panic!("unexpected {phase:?}"),
        }
    };
    let output = fail(
        &mut world,
        |request| matches!(request, Request::Emit(Event::Repository { .. })),
        || Reply::Written(Err("broken pipe".to_owned())),
    );
    assert_eq!(output.message(), "failed to write structured output: broken pipe");
    let flush = fail(
        &mut world,
        |request| matches!(request, Request::Flush),
        || Reply::Written(Err("broken pipe".to_owned())),
    );
    assert!(matches!(flush, Error::Output(_)));
    let state = fail(
        &mut world,
        |request| matches!(request, Request::SaveState { .. }),
        || Reply::Saved(Err(lop::state::SaveFailure::Write("full".to_owned()))),
    );
    assert!(matches!(state, Error::State(_)));
}
