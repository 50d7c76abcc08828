//! The coordination with Herdr.
use lop::command::{CommandResult, Reply, Request};
use lop::filepath::FilePath;
use lop::flow::Step;
use lop::herdr::{
    inspect_candidate, inspect_stale_workspaces, retire_candidate, AcknowledgementDocument, Agent,
    AgentStatus, CandidateStatus, Coordination, HerdrSession, InspectionError, Pane,
    ProcessInfoDocument, Snapshot, SnapshotDocument, StaleWorkspaceStatus, Workspace,
    WorkspaceWorktree,
};

const CANDIDATE: &str = "/work/feature";

fn path(text: &str) -> FilePath {
    FilePath::from_text(text)
}

fn drive<T>(
    work: impl Fn(&Vec<Reply>) -> Step<T>,
    mut answer: impl FnMut(Request) -> Reply,
) -> T {
    let mut replies = Vec::new();
    loop {
        match work(&replies) {
            Step::Ask(request) => {
                let reply = answer(request);
                replies.push(reply);
            }
            Step::Done(value, used) => {
                assert_eq!(used, replies.len());
                return value;
            }
        }
    }
}

fn exited(code: i32, stdout: &str, stderr: &str) -> Reply {
    Reply::Command(CommandResult::Exited {
        code: Some(code),
        stdout: stdout.as_bytes().to_vec(),
        stderr: stderr.as_bytes().to_vec(),
    })
}

fn pane(id: &str, place: &str, focused: bool, agent: Option<AgentStatus>) -> Pane {
    Pane {
        id: id.to_owned(),
        workspace_id: "w1".to_owned(),
        focused,
        cwd: Some(path(place)),
        foreground_cwd: Some(path(place)),
        agent: agent.map(|_| "pi".to_owned()),
        status: agent.unwrap_or(AgentStatus::Unknown),
    }
}

fn snapshot(focused: bool, agent: Option<AgentStatus>) -> Snapshot {
    Snapshot {
        version: "0.9.0".to_owned(),
        protocol: 22,
        focused_pane_id: if focused { Some("w1:p1".to_owned()) } else { None },
        panes: vec![pane("w1:p1", CANDIDATE, focused, agent)],
        agents: agent
            .into_iter()
            .map(|status| Agent {
                id: "w1:p1".to_owned(),
                workspace_id: "w1".to_owned(),
                cwd: Some(path(CANDIDATE)),
                foreground_cwd: Some(path(CANDIDATE)),
                status,
            })
            .collect(),
        workspaces: vec![Workspace {
            workspace_id: "w1".to_owned(),
            worktree: Some(WorkspaceWorktree {
                checkout_path: path(CANDIDATE),
                is_linked_worktree: None,
                repo_key: None,
            }),
        }],
    }
}

/// What Herdr answers.
struct Herdr {
    sessions: Result<Vec<(&'static str, bool)>, String>,
    snapshot: Box<dyn Fn() -> Result<SnapshotDocument, String>>,
    close: Reply,
    acknowledgement: Result<Option<&'static str>, String>,
    missing: bool,
    unavailable: bool,
    log: Vec<String>,
}

fn herdr(found: impl Fn() -> Snapshot + 'static) -> Herdr {
    Herdr {
        sessions: Err("unknown command".to_owned()),
        snapshot: Box::new(move || {
            Ok(SnapshotDocument { kind: "session_snapshot".to_owned(), snapshot: found() })
        }),
        close: exited(0, "ack", ""),
        acknowledgement: Ok(None),
        missing: false,
        unavailable: false,
        log: Vec::new(),
    }
}

impl Herdr {
    fn answer(&mut self, request: Request) -> Reply {
        match request {
            Request::Run(line) => {
                assert_eq!(line.program, "herdr");
                let shown = line.arguments.join(" ");
                self.log.push(shown.clone());
                if self.missing {
                    return Reply::Command(CommandResult::Failed("No such file".to_owned()));
                }
                if shown == "session list --json" {
                    return match self.sessions {
                        Ok(_) => exited(0, "sessions", ""),
                        Err(_) => exited(2, "", "unknown command"),
                    };
                }
                if shown.ends_with("api snapshot") {
                    return if self.unavailable {
                        exited(1, "", "unavailable")
                    } else {
                        exited(0, "snapshot", "")
                    };
                }
                if shown.contains("pane process-info --pane w1:p1") {
                    return exited(0, "processes", "");
                }
                match &self.close {
                    Reply::Command(result) => Reply::Command(result.clone()),
                    reply => panic!("unexpected {reply:?}"),
                }
            }
            Request::DecodeSessions(_) => Reply::Sessions(match &self.sessions {
                Ok(sessions) => Ok(sessions
                    .iter()
                    .map(|(name, running)| HerdrSession {
                        name: name.to_string(),
                        running: *running,
                    })
                    .collect()),
                Err(error) => Err(error.clone()),
            }),
            Request::DecodeSnapshot(_) => Reply::Snapshot((self.snapshot)()),
            Request::DecodeProcessInfo(_) => Reply::ProcessInfo(Ok(ProcessInfoDocument {
                kind: "pane_process_info".to_owned(),
                pane_id: "w1:p1".to_owned(),
                shell_pid: Some(41),
                foreground_processes: vec![42],
            })),
            Request::DecodeAcknowledgement(_) => {
                Reply::Acknowledgement(match &self.acknowledgement {
                    Ok(workspace) => Ok(AcknowledgementDocument {
                        kind: if workspace.is_some() { "workspace_closed" } else { "ok" }.to_owned(),
                        workspace_id: workspace.map(str::to_owned),
                    }),
                    Err(error) => Err(error.clone()),
                })
            }
            Request::Resolve(places) => {
                Reply::Resolved(places.into_iter().map(|place| (place.clone(), place)).collect())
            }
            Request::Canonicalize(place) => Reply::Canonical(Ok(place)),
            Request::Exists(_) => Reply::Exists(false),
            request => panic!("unexpected {request:?}"),
        }
    }

    fn inspect(&mut self) -> Result<CandidateStatus, InspectionError> {
        drive(
            |replies| inspect_candidate(&path(CANDIDATE), 1, replies, 0),
            |request| self.answer(request),
        )
    }
}

#[test]
fn missing_client_is_optional() {
    let mut herdr = herdr(|| snapshot(false, None));
    herdr.missing = true;
    assert_eq!(herdr.inspect().unwrap(), CandidateStatus::Unavailable);
}

#[test]
fn unavailable_socket_is_optional() {
    let mut herdr = herdr(|| snapshot(false, None));
    herdr.unavailable = true;
    assert_eq!(herdr.inspect().unwrap(), CandidateStatus::Unavailable);
}

#[test]
fn focused_pane_and_active_agent_veto_removal() {
    let focused = herdr(|| snapshot(true, None)).inspect().unwrap();
    assert!(matches!(focused, CandidateStatus::FocusedPane { .. }));
    let working = herdr(|| snapshot(false, Some(AgentStatus::Working))).inspect().unwrap();
    assert!(matches!(working, CandidateStatus::ActiveAgent { .. }));
}

#[test]
fn idle_workspace_is_clear_and_selected_for_cleanup() {
    let status = herdr(|| snapshot(false, Some(AgentStatus::Idle))).inspect().unwrap();
    let CandidateStatus::Clear(coordination) = status else {
        panic!("expected clear status");
    };
    assert_eq!(coordination.workspaces, ["w1"]);
    assert_eq!(coordination.processes, [41, 42]);
    assert!(coordination.requires_retirement());
    assert_eq!(coordination.workspace_count(), 1);
    assert_eq!(coordination.attributed_processes(), &[41, 42]);
}

#[test]
fn mixed_path_workspace_fails_closed() {
    let error = herdr(|| {
        let mut value = snapshot(false, Some(AgentStatus::Idle));
        value.panes.push(pane("w1:p2", "/tmp/unrelated", false, None));
        value
    })
    .inspect()
    .unwrap_err();
    assert!(matches!(error, InspectionError::IncompleteActivity(_)));
    assert!(error.message().contains("unrelated pane"));
}

#[test]
fn stale_worktrunk_trash_workspace_is_detected() {
    let checkout = "/repository/.worktrees/finished";
    let mut herdr = herdr(move || {
        let mut value = snapshot(false, None);
        value.panes = vec![pane("w1:p1", "/repository/.git/wt/trash/finished-1234", false, None)];
        value.workspaces = vec![Workspace {
            workspace_id: "w1".to_owned(),
            worktree: Some(WorkspaceWorktree {
                checkout_path: path(checkout),
                is_linked_worktree: Some(true),
                repo_key: Some(path("/repository/.git")),
            }),
        }];
        value
    });
    let status = drive(
        |replies| inspect_stale_workspaces(&path("/repository/.git"), &Vec::new(), 1, replies, 0),
        |request| herdr.answer(request),
    )
    .unwrap();
    let StaleWorkspaceStatus::Inspected(stale) = status else {
        panic!("expected available Herdr status");
    };
    assert_eq!(stale.len(), 1);
    assert_eq!(stale[0].checkout_path, path(checkout));
    assert!(matches!(stale[0].status, CandidateStatus::Clear(_)));
}

#[test]
fn malformed_and_incomplete_activity_fail_closed() {
    let mut malformed = herdr(|| snapshot(false, None));
    malformed.snapshot = Box::new(|| Err("EOF while parsing an object".to_owned()));
    assert!(matches!(malformed.inspect(), Err(InspectionError::MalformedJson(_))));
    assert!(matches!(
        herdr(|| snapshot(false, Some(AgentStatus::Unknown))).inspect(),
        Err(InspectionError::IncompleteActivity(_))
    ));
}

#[test]
fn candidate_retirement_reports_success_and_failure() {
    let mut success = herdr(|| snapshot(false, Some(AgentStatus::Idle)));
    let CandidateStatus::Clear(coordination) = success.inspect().unwrap() else {
        panic!("expected clear status");
    };
    drive(
        |replies| retire_candidate(&coordination, 1, replies, 0),
        |request| success.answer(request),
    )
    .unwrap();
    assert_eq!(success.log.last().unwrap(), "workspace close w1");

    let mut failure = herdr(|| snapshot(false, Some(AgentStatus::Idle)));
    failure.close = exited(1, "", "close-failed");
    let error = drive(
        |replies| retire_candidate(&coordination, 1, replies, 0),
        |request| failure.answer(request),
    )
    .unwrap_err();
    assert!(error.message().contains("close-failed"));
}

#[test]
fn the_one_running_session_is_used() {
    let mut herdr = herdr(|| snapshot(false, Some(AgentStatus::Idle)));
    herdr.sessions = Ok(vec![("old", false), ("test", true)]);
    herdr.acknowledgement = Ok(Some("w1"));
    let CandidateStatus::Clear(coordination) = herdr.inspect().unwrap() else {
        panic!("expected clear status");
    };
    assert_eq!(coordination.session.as_deref(), Some("test"));
    assert!(herdr.log.contains(&"--session test api snapshot".to_owned()));
    drive(
        |replies| retire_candidate(&coordination, 1, replies, 0),
        |request| herdr.answer(request),
    )
    .unwrap();
    assert_eq!(herdr.log.last().unwrap(), "--session test workspace close w1");
}

#[test]
fn no_session_is_named_unless_it_is_the_only_one_running() {
    for sessions in [
        vec![("old", false)],
        vec![("one", true), ("two", true)],
        Vec::new(),
    ] {
        let mut herdr = herdr(|| snapshot(false, Some(AgentStatus::Idle)));
        herdr.sessions = Ok(sessions);
        let CandidateStatus::Clear(coordination) = herdr.inspect().unwrap() else {
            panic!("expected clear status");
        };
        assert_eq!(coordination.session, None);
        assert!(herdr.log.contains(&"api snapshot".to_owned()));
        herdr.unavailable = true;
        assert_eq!(herdr.inspect().unwrap(), CandidateStatus::Unavailable);
    }
}

#[test]
fn wrong_acknowledgements_fail_the_retirement() {
    let coordination = Coordination {
        session: None,
        workspaces: vec!["w1".to_owned()],
        panes: Vec::new(),
        processes: Vec::new(),
    };
    for acknowledgement in [Ok(Some("w2")), Err("eof".to_owned())] {
        let mut herdr = herdr(|| snapshot(false, None));
        herdr.acknowledgement = acknowledgement;
        assert!(drive(
            |replies| retire_candidate(&coordination, 1, replies, 0),
            |request| herdr.answer(request),
        )
        .is_err());
    }
}

#[test]
fn every_workspace_is_tried_and_every_complaint_is_told() {
    let coordination = Coordination {
        session: None,
        workspaces: vec!["w1".to_owned(), "w2".to_owned(), "w3".to_owned(), "w4".to_owned()],
        panes: Vec::new(),
        processes: Vec::new(),
    };
    let mut tried = Vec::new();
    let error = drive(
        |replies| retire_candidate(&coordination, 1, replies, 0),
        |request| match request {
            Request::Run(line) => {
                let workspace = line.arguments.last().unwrap().clone();
                tried.push(workspace.clone());
                match workspace.as_str() {
                    "w1" => exited(1, "", "busy"),
                    "w3" => Reply::Command(CommandResult::TimedOut),
                    _ => exited(0, &workspace, ""),
                }
            }
            Request::DecodeAcknowledgement(stdout) => {
                Reply::Acknowledgement(Ok(AcknowledgementDocument {
                    kind: if stdout == b"w2" { "ok" } else { "other" }.to_owned(),
                    workspace_id: None,
                }))
            }
            request => panic!("unexpected {request:?}"),
        },
    )
    .unwrap_err();
    assert_eq!(tried, ["w1", "w2", "w3", "w4"]);
    assert_eq!(
        error.message(),
        "Herdr workspace retirement failed: workspace w1: busy; \
         workspace w3: client or socket became unavailable; \
         workspace w4: malformed command response"
    );
}

#[test]
fn unrelated_workspaces_are_clear_without_retirement() {
    let status = drive(
        |replies| inspect_candidate(&path("/work/other"), 1, replies, 0),
        {
            let mut herdr = herdr(|| snapshot(true, Some(AgentStatus::Working)));
            move |request| herdr.answer(request)
        },
    )
    .unwrap();
    let CandidateStatus::Clear(coordination) = status else {
        panic!("expected clear status");
    };
    assert!(!coordination.requires_retirement());
    assert_eq!(coordination.workspace_count(), 0);
}

#[test]
fn snapshots_of_another_kind_are_malformed() {
    let mut other = herdr(|| snapshot(false, None));
    other.snapshot = Box::new(|| {
        Ok(SnapshotDocument { kind: "error".to_owned(), snapshot: snapshot(false, None) })
    });
    let error = other.inspect().unwrap_err();
    assert!(matches!(error, InspectionError::MalformedResult(_)));
    let blocked = herdr(|| snapshot(false, Some(AgentStatus::Blocked))).inspect().unwrap();
    assert!(matches!(blocked, CandidateStatus::ActiveAgent { .. }));
}

#[test]
fn processes_that_cannot_be_told_fail_closed() {
    let mut herdr = herdr(|| snapshot(false, Some(AgentStatus::Idle)));
    let status = drive(
        |replies| inspect_candidate(&path(CANDIDATE), 1, replies, 0),
        |request| match request {
            Request::DecodeProcessInfo(_) => Reply::ProcessInfo(Err("eof".to_owned())),
            request => herdr.answer(request),
        },
    );
    let error = status.unwrap_err();
    assert!(matches!(error, InspectionError::ProcessInspection(_)));
    assert!(error.message().contains("eof"));
}

#[test]
fn stale_workspaces_need_no_client() {
    let mut herdr = herdr(|| snapshot(false, None));
    herdr.missing = true;
    let status = drive(
        |replies| inspect_stale_workspaces(&path("/repository/.git"), &Vec::new(), 1, replies, 0),
        |request| herdr.answer(request),
    );
    assert_eq!(status, Ok(StaleWorkspaceStatus::Unavailable));
}
