//! The inspection of repositories, the proofs of integration, and the safety of removals.
use lop::cleanup::{
    check_candidate, check_candidate_with_inspector, parse_lsof_cwds, parse_removal,
    remove_worktree, BranchOutcome, PlatformProcessInspector, ProcessInspector, RemovalError,
    RemovalRow,
};
use lop::command::{CommandResult, PathFailure, PathFailureKind, Reply, Request};
use lop::filepath::FilePath;
use lop::flow::Step;
use lop::inspection::{
    inspect_repository, is_zero_oid, parse_porcelain, parse_record, RepositoryInspectionOutcome,
    WorktreeClassification, WorktreeInspection,
};
use lop::integration::{
    integrate, parse_proofs, prove_integrations, AdapterError, IntegrationCandidate,
    IntegrationPresence, IntegrationProof, IntegrationReason, ListEnvelope, ListItem,
    RelationPresence, Version,
};
use lop::output::ReasonCode;

fn path(text: &str) -> FilePath {
    FilePath::from_text(text)
}

fn drive<T>(
    work: impl Fn(&Vec<Reply>) -> Step<T>,
    mut answer: impl FnMut(Request) -> Reply,
) -> T {
    let mut replies = Vec::new();
    loop {
        match work(&replies) {
            Step::Ask(request) => {
                let reply = answer(request);
                replies.push(reply);
            }
            Step::Done(value, used) => {
                assert_eq!(used, replies.len());
                return value;
            }
        }
    }
}

fn exited(code: i32, stdout: &[u8], stderr: &str) -> CommandResult {
    CommandResult::Exited {
        code: Some(code),
        stdout: stdout.to_vec(),
        stderr: stderr.as_bytes().to_vec(),
    }
}

#[test]
fn lsof_cwd_detection_only_matches_the_worktree_or_descendants() {
    let bytes =
        b"p12\0fcwd\0n/tmp/project\0\np13\0fcwd\0n/tmp/project-worktree/subdir\0\n".to_vec();
    assert!(parse_lsof_cwds(&bytes, &path("/tmp/project-worktree"), &Vec::new()).unwrap());
    assert!(!parse_lsof_cwds(&bytes, &path("/tmp/other"), &Vec::new()).unwrap());
}

#[test]
fn ignored_processes_do_not_count() {
    let bytes = b"p12\0fcwd\0n/w\0\np13\0fcwd\0n/w/sub\0\n".to_vec();
    assert!(parse_lsof_cwds(&bytes, &path("/w"), &vec![12]).unwrap());
    assert!(!parse_lsof_cwds(&bytes, &path("/w"), &vec![12, 13]).unwrap());
    assert_eq!(
        parse_lsof_cwds(&b"p1\0n\0".to_vec(), &path("/w"), &Vec::new()),
        Err("lsof returned an empty current-directory path".to_owned())
    );
}

fn removal_row(outcome: BranchOutcome) -> RemovalRow {
    RemovalRow {
        kind: "worktree".to_owned(),
        branch: Some("feature".to_owned()),
        path: path("/tmp/feature"),
        branch_outcome: outcome,
        branch_checked_out_at: None,
    }
}

#[test]
fn parses_all_foreground_branch_outcomes_and_rejects_deferred() {
    for outcome in [
        BranchOutcome::Deleted,
        BranchOutcome::NotAttempted,
        BranchOutcome::RetainedUnmerged,
        BranchOutcome::RetainedCheckedOut,
        BranchOutcome::RetainedRaced,
        BranchOutcome::RetainedFailed,
    ] {
        assert_eq!(
            parse_removal(&vec![removal_row(outcome)], &path("/tmp/feature"))
                .unwrap()
                .branch_outcome,
            outcome
        );
    }
    assert!(
        parse_removal(&vec![removal_row(BranchOutcome::Deferred)], &path("/tmp/feature")).is_err()
    );
}

#[test]
fn removal_documents_name_the_one_worktree() {
    let feature = path("/tmp/feature");
    assert!(parse_removal(&Vec::new(), &feature).is_err());
    let twice = vec![removal_row(BranchOutcome::Deleted), removal_row(BranchOutcome::Deleted)];
    assert!(parse_removal(&twice, &feature).is_err());
    assert!(parse_removal(&vec![removal_row(BranchOutcome::Deleted)], &path("/tmp/x")).is_err());
    let mut branch = removal_row(BranchOutcome::Deleted);
    branch.kind = "branch".to_owned();
    assert!(parse_removal(&vec![branch], &feature).is_err());
}

#[test]
fn removal_invocation_is_foreground_confirmed_and_force_free() {
    let mut arguments = Vec::new();
    let result = drive(
        |replies| remove_worktree(&path("/tmp/repository"), &path("/tmp/feature"), 2, replies, 0),
        |request| match request {
            Request::Run(line) => {
                assert_eq!(line.program, "wt");
                assert_eq!(line.timeout, Some(2));
                if let Some(directory) = &line.directory {
                    arguments.push("-C".to_owned());
                    arguments.push(directory.display());
                }
                arguments.extend(line.arguments);
                Reply::Command(exited(0, b"[]", ""))
            }
            Request::DecodeRemoval(document) => {
                assert_eq!(document, b"[]");
                Reply::Removal(Ok(vec![removal_row(BranchOutcome::RetainedRaced)]))
            }
            Request::Canonicalize(place) => Reply::Canonical(Ok(place)),
            request => panic!("unexpected {request:?}"),
        },
    )
    .unwrap();
    assert_eq!(result.branch_outcome, BranchOutcome::RetainedRaced);
    assert_eq!(
        arguments,
        [
            "-C",
            "/tmp/repository",
            "remove",
            "--foreground",
            "--format=json",
            "--yes",
            "/tmp/feature"
        ]
    );
    assert!(!arguments.iter().any(|argument| argument.contains("--force")));
    assert!(!arguments.iter().any(|argument| argument.contains("--reap")));
}

fn failed_removal(command: CommandResult, rows: Result<Vec<RemovalRow>, String>) -> RemovalError {
    drive(
        |replies| remove_worktree(&path("/r"), &path("/tmp/feature"), 2, replies, 0),
        |request| match request {
            Request::Run(_) => Reply::Command(command.clone()),
            Request::DecodeRemoval(_) => Reply::Removal(match &rows {
                Ok(_) => Ok(Vec::new()),
                Err(error) => Err(error.clone()),
            }),
            Request::Canonicalize(place) => Reply::Canonical(Ok(place)),
            request => panic!("unexpected {request:?}"),
        },
    )
    .unwrap_err()
}

#[test]
fn failed_removals_tell_why() {
    let missing = failed_removal(CommandResult::Failed("gone".to_owned()), Ok(Vec::new()));
    assert!(matches!(missing, RemovalError::Unavailable(_)));
    assert!(missing.message().contains("gone"));
    assert!(matches!(
        failed_removal(CommandResult::TimedOut, Ok(Vec::new())),
        RemovalError::TimedOut
    ));
    let refused = failed_removal(exited(1, b"", "  not today \n"), Ok(Vec::new()));
    assert!(matches!(refused, RemovalError::Command(_)));
    assert!(refused.message().contains("not today"));
    assert!(matches!(
        failed_removal(exited(0, b"{", ""), Err("eof".to_owned())),
        RemovalError::MalformedJson(_)
    ));
    assert!(matches!(
        failed_removal(exited(0, b"[]", ""), Ok(Vec::new())),
        RemovalError::MalformedResult(_)
    ));
}

fn head() -> String {
    "0123456789012345678901234567890123456789".to_owned()
}

fn candidate() -> WorktreeInspection {
    WorktreeInspection {
        path: path("/tmp/feature"),
        head: head(),
        branch: Some("refs/heads/feature".to_owned()),
        classification: WorktreeClassification::IntegratedSameCommit,
    }
}

fn porcelain(rest: &str) -> Vec<u8> {
    format!(
        "worktree /tmp/repository\0HEAD {0}\0branch refs/heads/main\0\0worktree /tmp/feature\0HEAD {0}\0branch refs/heads/feature\0{rest}\0",
        head()
    )
    .into_bytes()
}

/// What the check of a candidate finds.
struct Facts {
    list: CommandResult,
    status: CommandResult,
    directories: Option<CommandResult>,
    canonical: bool,
}

fn quiet() -> Facts {
    Facts {
        list: exited(0, &porcelain(""), ""),
        status: exited(0, b"", ""),
        directories: Some(exited(0, b"p1\0fcwd\0n/\0\n", "")),
        canonical: true,
    }
}

impl Facts {
    fn answer(&self, request: Request) -> Reply {
        match request {
            Request::Canonicalize(place) => {
                if self.canonical {
                    Reply::Canonical(Ok(place))
                } else {
                    Reply::Canonical(Err(PathFailure {
                        kind: PathFailureKind::NotFound,
                        message: "gone".to_owned(),
                    }))
                }
            }
            Request::Run(line) if line.arguments.iter().any(|word| word == "status") => {
                Reply::Command(self.status.clone())
            }
            Request::Run(line) if line.arguments.iter().any(|word| word == "worktree") => {
                Reply::Command(self.list.clone())
            }
            Request::ListCurrentDirectories(_) => {
                Reply::CurrentDirectories(self.directories.clone())
            }
            request => panic!("unexpected {request:?}"),
        }
    }

    fn check(&self) -> Result<(), ReasonCode> {
        drive(
            |replies| check_candidate(&path("/tmp/repository"), &candidate(), true, 2, replies, 0),
            |request| self.answer(request),
        )
        .map_err(|refusal| refusal.reason_code)
    }
}

struct FailingInspector;

impl ProcessInspector for FailingInspector {
    fn worktree_in_use(&self, _worktree: &FilePath, _timeout: u64) -> Result<bool, String> {
        Err("unavailable".to_owned())
    }
}

#[test]
fn unavailable_process_inspection_fails_closed() {
    let refusal = drive(
        |replies| {
            check_candidate_with_inspector(
                &path("/tmp/repository"),
                &candidate(),
                true,
                2,
                &FailingInspector,
                replies,
                0,
            )
        },
        |request| quiet().answer(request),
    )
    .unwrap_err();
    assert_eq!(refusal.reason_code, ReasonCode::SafetyInspectionFailed);
    assert!(refusal.operational_failure);
    assert!(refusal.message.contains("unavailable"));
}

#[test]
fn quiet_candidates_pass_the_check() {
    assert_eq!(quiet().check(), Ok(()));
}

#[test]
fn every_gate_refuses() {
    let mut facts = quiet();
    facts.status = exited(0, b"?? file\0", "");
    assert_eq!(facts.check(), Err(ReasonCode::DirtyWorktree));

    let mut facts = quiet();
    facts.status = exited(128, b"", "no repository");
    assert_eq!(facts.check(), Err(ReasonCode::SafetyInspectionFailed));

    let mut facts = quiet();
    facts.list = exited(0, &porcelain("locked\0"), "");
    assert_eq!(facts.check(), Err(ReasonCode::LockedWorktree));

    let mut facts = quiet();
    facts.list = exited(
        0,
        format!("worktree /tmp/repository\0HEAD {}\0branch refs/heads/main\0\0", head()).as_bytes(),
        "",
    );
    assert_eq!(facts.check(), Err(ReasonCode::WorktreeMissing));

    let mut facts = quiet();
    facts.list = CommandResult::TimedOut;
    assert_eq!(facts.check(), Err(ReasonCode::SafetyInspectionFailed));

    let mut facts = quiet();
    facts.directories = Some(exited(0, b"p9\0fcwd\0n/tmp/feature/sub\0\n", ""));
    assert_eq!(facts.check(), Err(ReasonCode::ProcessUsingWorktree));

    let mut facts = quiet();
    facts.directories = None;
    assert_eq!(facts.check(), Err(ReasonCode::SafetyInspectionFailed));

    let mut facts = quiet();
    facts.directories = Some(exited(1, b"", "denied"));
    assert_eq!(facts.check(), Err(ReasonCode::SafetyInspectionFailed));
}

#[test]
fn platform_inspector_reads_its_listing() {
    let inspector = PlatformProcessInspector {
        listing: Some(exited(0, b"p9\0fcwd\0n/w\0\n", "")),
        ignored: Vec::new(),
    };
    assert_eq!(inspector.worktree_in_use(&path("/w"), 1), Ok(true));
    assert_eq!(inspector.worktree_in_use(&path("/v"), 1), Ok(false));
    let none = PlatformProcessInspector { listing: None, ignored: Vec::new() };
    assert_eq!(
        none.worktree_in_use(&path("/w"), 1),
        Err("process inspection is not implemented on this platform".to_owned())
    );
}

#[test]
fn parses_nul_porcelain_with_unusual_paths_and_metadata() {
    let input = b"worktree /tmp/main path\0HEAD abc123\0branch refs/heads/main\0locked reason here\0\0worktree /tmp/gone\npath\0HEAD 0000000000000000000000000000000000000000\0branch refs/heads/gone\0prunable gitdir file points to non-existent location\0\0";
    let parsed = parse_porcelain(&input.to_vec()).unwrap();
    assert_eq!(parsed.len(), 2);
    assert_eq!(parsed[0].path, path("/tmp/main path"));
    assert_eq!(parsed[1].path, path("/tmp/gone\npath"));
    assert!(parsed[1].prunable);
    assert!(is_zero_oid(&parsed[1].head));
}

#[test]
fn rejects_malformed_porcelain() {
    for input in [
        &b"HEAD abc\0\0"[..],
        &b"worktree /tmp/a\0branch refs/heads/a\0\0"[..],
        &b"worktree /tmp/a\0HEAD abc\0mystery value\0\0"[..],
        &b"worktree /tmp/a\0HEAD abc\0detached\0branch refs/heads/a\0\0"[..],
        &b"worktree /tmp/a\0HEAD abc\0"[..],
    ] {
        assert!(parse_porcelain(&input.to_vec()).is_err(), "input: {input:?}");
    }
}

#[test]
fn the_order_of_fields_does_not_matter() {
    let read = |fields: &[&str]| {
        parse_record(&fields.iter().map(|field| field.as_bytes().to_vec()).collect())
    };
    let record = read(&["worktree /w", "HEAD abc", "branch refs/heads/f", "locked why"]).unwrap();
    assert_eq!(
        read(&["worktree /w", "locked why", "branch refs/heads/f", "HEAD abc"]).unwrap(),
        record
    );
    assert!(record.locked && !record.bare);
    assert!(read(&["HEAD abc", "worktree /w"]).is_err());
    assert!(read(&["worktree /w", "HEAD abc", "HEAD abc"]).is_err());
    assert!(read(&["worktree /w", "HEAD abc", "bare", "bare"]).is_err());
}

#[test]
fn lists_can_be_put_together() {
    let left = record("/a", "branch refs/heads/a").into_bytes();
    let right = record("/b", "detached").into_bytes();
    let mut expected = parse_porcelain(&left).unwrap();
    expected.extend(parse_porcelain(&right).unwrap());
    assert_eq!(parse_porcelain(&[left, right].concat()).unwrap(), expected);
    assert!(parse_porcelain(&Vec::new()).is_err());
    assert!(parse_porcelain(&vec![0, 0]).is_err());
}

/// A repository: its worktrees, its references, and the upstreams of its branches.
struct Git {
    list: CommandResult,
    fetch: CommandResult,
    references: Vec<&'static str>,
    upstreams: Vec<(&'static str, &'static [u8])>,
}

impl Git {
    fn answer(&self, request: Request) -> Reply {
        let line = match request {
            Request::Run(line) => line,
            request => panic!("unexpected {request:?}"),
        };
        assert_eq!(line.program, "git");
        assert_eq!(line.directory, Some(path("/r")));
        let words = &line.arguments;
        let last = words[words.len() - 1].as_str();
        Reply::Command(match words[0].as_str() {
            "worktree" => self.list.clone(),
            "fetch" => self.fetch.clone(),
            "show-ref" => {
                let found = self.references.iter().any(|reference| *reference == last);
                exited(if found { 0 } else { 1 }, b"", "")
            }
            "for-each-ref" => {
                let found = self.upstreams.iter().find(|(branch, _)| *branch == last);
                exited(0, found.map_or(&b"\n"[..], |(_, upstream)| *upstream), "")
            }
            _ => panic!("unexpected {words:?}"),
        })
    }

    fn inspect(&self) -> lop::inspection::RepositoryInspection {
        drive(
            |replies| inspect_repository(&path("/r"), 5, replies, 0),
            |request| self.answer(request),
        )
    }
}

fn record(place: &str, rest: &str) -> String {
    format!("worktree {place}\0HEAD {}\0{rest}\0\0", head())
}

#[test]
fn classifies_all_worktree_states_after_fetching_multiple_remotes() {
    let list = [
        record("/r", "branch refs/heads/main"),
        record("/unusual worktree paths/keep", "branch refs/heads/keep"),
        record("/unusual worktree paths/gone", "branch refs/heads/gone"),
        record("/unusual worktree paths/local", "branch refs/heads/local"),
        record("/unusual worktree paths/dangling", "branch refs/heads/dangling"),
        record(
            "/unusual worktree paths/prunable",
            "branch refs/heads/prunable\0prunable gitdir file points to non-existent location",
        ),
        record("/unusual worktree paths/second", "branch refs/heads/second"),
        record("/unusual worktree paths/detached checkout", "detached"),
    ]
    .concat();
    let git = Git {
        list: exited(0, list.as_bytes(), ""),
        fetch: exited(0, b"", ""),
        references: vec![
            "refs/heads/main",
            "refs/heads/keep",
            "refs/heads/gone",
            "refs/heads/local",
            "refs/heads/prunable",
            "refs/heads/second",
            "refs/remotes/origin/main",
            "refs/remotes/origin/keep",
            "refs/remotes/secondary/second",
        ],
        upstreams: vec![
            ("refs/heads/main", b"refs/remotes/origin/main\n"),
            ("refs/heads/keep", b"refs/remotes/origin/keep\n"),
            ("refs/heads/gone", b"refs/remotes/origin/gone\n"),
            ("refs/heads/second", b"refs/remotes/secondary/second\n"),
        ],
    };
    let found = git.inspect();
    assert_eq!(found.outcome, RepositoryInspectionOutcome::Inspected);
    let classifications: Vec<(String, WorktreeClassification)> = found
        .worktrees
        .iter()
        .map(|worktree| (worktree.path.display(), worktree.classification))
        .collect();
    let expected = [
        ("/r", WorktreeClassification::MainWorktree),
        ("/unusual worktree paths/keep", WorktreeClassification::UpstreamExists),
        ("/unusual worktree paths/gone", WorktreeClassification::UpstreamMissing),
        ("/unusual worktree paths/local", WorktreeClassification::NoUpstream),
        ("/unusual worktree paths/dangling", WorktreeClassification::DanglingSymbolicHead),
        ("/unusual worktree paths/prunable", WorktreeClassification::PrunableWorktree),
        ("/unusual worktree paths/second", WorktreeClassification::UpstreamExists),
        ("/unusual worktree paths/detached checkout", WorktreeClassification::DetachedWorktree),
    ];
    assert_eq!(classifications.len(), expected.len());
    for (place, classification) in expected {
        assert!(
            classifications.contains(&(place.to_owned(), classification)),
            "{place}: {classifications:?}"
        );
    }
}

#[test]
fn unreadable_upstreams_are_malformed() {
    let list = [
        record("/r", "branch refs/heads/main"),
        record("/odd", "branch refs/heads/odd"),
    ]
    .concat();
    let git = Git {
        list: exited(0, list.as_bytes(), ""),
        fetch: exited(0, b"", ""),
        references: vec!["refs/heads/odd"],
        upstreams: vec![("refs/heads/odd", b"refs/\xff\n")],
    };
    let found = git.inspect();
    assert_eq!(
        found.worktrees[1].classification,
        WorktreeClassification::Malformed
    );
    let error = std::str::from_utf8(b"refs/\xff\n").unwrap_err().to_string();
    assert!(found.message.unwrap().contains(&error));
}

#[test]
fn fetch_failure_suppresses_all_removal_classification() {
    let git = Git {
        list: exited(0, record("/r", "branch refs/heads/main").as_bytes(), ""),
        fetch: exited(128, b"", "missing.git does not appear to be a git repository"),
        references: Vec::new(),
        upstreams: Vec::new(),
    };
    let found = git.inspect();
    assert_eq!(found.outcome, RepositoryInspectionOutcome::FetchFailed);
    assert_eq!(found.worktrees.len(), 1);
    assert!(found
        .worktrees
        .iter()
        .all(|item| item.classification == WorktreeClassification::FetchFailed));
}

#[test]
fn fetch_timeout_suppresses_all_removal_classification() {
    let git = Git {
        list: exited(0, record("/r", "branch refs/heads/main").as_bytes(), ""),
        fetch: CommandResult::TimedOut,
        references: Vec::new(),
        upstreams: Vec::new(),
    };
    let found = git.inspect();
    assert_eq!(found.outcome, RepositoryInspectionOutcome::FetchTimedOut);
    assert_eq!(found.worktrees.len(), 1);
    assert_eq!(
        found.worktrees[0].classification,
        WorktreeClassification::FetchTimedOut
    );
}

#[test]
fn malformed_lists_are_reported() {
    let git = Git {
        list: exited(0, b"HEAD abc\0\0", ""),
        fetch: exited(0, b"", ""),
        references: Vec::new(),
        upstreams: Vec::new(),
    };
    let found = git.inspect();
    assert_eq!(found.outcome, RepositoryInspectionOutcome::MalformedPorcelain);
    assert!(found.worktrees.is_empty());
}

fn reasons() -> Vec<IntegrationReason> {
    vec![
        IntegrationReason::SameCommit,
        IntegrationReason::Ancestor,
        IntegrationReason::NoAddedChanges,
        IntegrationReason::TreesMatch,
        IntegrationReason::MergeAddsNothing,
        IntegrationReason::PatchIdMatch,
    ]
}

fn integration_candidate() -> IntegrationCandidate {
    IntegrationCandidate {
        path: path("/tmp/project-feature"),
        branch: "refs/heads/feature".to_owned(),
        head: head(),
    }
}

fn envelope(relation: RelationPresence) -> ListEnvelope {
    ListEnvelope {
        schema: 2,
        default_branch: Some("main".to_owned()),
        items: vec![ListItem {
            branch: Some("feature".to_owned()),
            head: Some(head()),
            worktree: Some(path("/tmp/project-feature")),
            default_branch: relation,
        }],
    }
}

fn integrated(reason: IntegrationReason) -> RelationPresence {
    RelationPresence::Value(IntegrationPresence::Value(reason))
}

fn proofs(envelope: &ListEnvelope) -> Result<Vec<IntegrationProof>, AdapterError> {
    parse_proofs(envelope, &vec![integration_candidate()])
}

#[test]
fn accepts_every_positive_integration_reason() {
    for reason in reasons() {
        assert_eq!(
            proofs(&envelope(integrated(reason))).unwrap(),
            [IntegrationProof::Integrated(reason)]
        );
    }
}

#[test]
fn distinguishes_unique_work_from_indeterminate_results() {
    assert_eq!(
        proofs(&envelope(RelationPresence::Value(IntegrationPresence::Missing))).unwrap(),
        [IntegrationProof::NotIntegrated]
    );
    assert_eq!(
        proofs(&envelope(RelationPresence::Value(IntegrationPresence::Null))).unwrap(),
        [IntegrationProof::Indeterminate]
    );
}

#[test]
fn unresolved_default_branch_is_retained() {
    let mut value = envelope(integrated(IntegrationReason::Ancestor));
    value.default_branch = None;
    assert_eq!(
        proofs(&value).unwrap(),
        [IntegrationProof::DefaultBranchUnresolved]
    );
}

#[test]
fn rejects_wrong_schema_unknown_reason_and_ambiguous_rows() {
    let mut wrong_schema = envelope(integrated(IntegrationReason::Ancestor));
    wrong_schema.schema = 1;
    assert!(matches!(
        proofs(&wrong_schema),
        Err(AdapterError::IncompatibleSchema(1))
    ));

    let unknown = prove(
        &exited(0, b"wt 0.74.0", ""),
        || Err("unknown variant `probably_integrated`".to_owned()),
    );
    assert!(matches!(unknown, Err(AdapterError::MalformedJson(_))));

    let mut duplicate = envelope(integrated(IntegrationReason::Ancestor));
    let row = envelope(integrated(IntegrationReason::Ancestor)).items.remove(0);
    duplicate.items.push(row);
    assert!(matches!(
        proofs(&duplicate),
        Err(AdapterError::MalformedResult(_))
    ));
}

fn prove(
    version: &CommandResult,
    list: impl Fn() -> Result<ListEnvelope, String>,
) -> Result<Vec<IntegrationProof>, AdapterError> {
    drive(
        |replies| {
            prove_integrations(&path("/tmp/project"), &vec![integration_candidate()], 1, replies, 0)
        },
        |request| match request {
            Request::Run(line) => {
                assert_eq!(line.program, "wt");
                if line.arguments == ["--version"] {
                    Reply::Command(version.clone())
                } else {
                    assert!(line.arguments.iter().any(|word| word == "list"));
                    Reply::Command(exited(0, b"{", ""))
                }
            }
            Request::DecodeList(document) => {
                assert_eq!(document, b"{");
                Reply::List(list())
            }
            Request::Canonicalize(place) => Reply::Canonical(Ok(place)),
            request => panic!("unexpected {request:?}"),
        },
    )
}

#[test]
fn rejects_missing_old_and_malformed_worktrunk_executables() {
    let found = || Ok(envelope(integrated(IntegrationReason::Ancestor)));
    assert!(matches!(
        prove(&CommandResult::Failed("No such file".to_owned()), found),
        Err(AdapterError::Unavailable(_))
    ));
    for (version, expected_old) in [("wt 0.65.0\n", true), ("worktrunk development\n", false)] {
        let result = prove(&exited(0, version.as_bytes(), ""), found);
        assert_eq!(
            matches!(result, Err(AdapterError::IncompatibleVersion { .. })),
            expected_old
        );
        assert_eq!(
            matches!(result, Err(AdapterError::MalformedVersion(_))),
            !expected_old
        );
    }
    assert!(matches!(
        prove(&exited(0, b"wt 0.74.0\n", ""), || Err("eof".to_owned())),
        Err(AdapterError::MalformedJson(_))
    ));
    assert_eq!(
        prove(&exited(0, b"wt 0.66.0\n", ""), found).unwrap(),
        [IntegrationProof::Integrated(IntegrationReason::Ancestor)]
    );
    assert!(matches!(
        prove(&exited(1, b"", "broken"), found),
        Err(AdapterError::VersionCommand(_))
    ));
    assert!(matches!(prove(&CommandResult::TimedOut, found), Err(AdapterError::TimedOut)));
}

#[test]
fn versions_are_compared_by_their_numbers() {
    let version = |text: &str| Version::parse(text).unwrap();
    assert!(version("0.9.0").is_older(version("0.66.0")));
    assert!(version("0.66.0").is_older(version("1.0.0")));
    assert!(!version("0.66.1").is_older(version("0.66.0")));
    assert_eq!(version("1.2.3").display(), "1.2.3");
    assert!(Version::parse("1.2").is_none());
    assert!(Version::parse("a.b.c").is_none());
}

#[test]
fn failed_proofs_integrate_nothing() {
    let inspection = lop::inspection::RepositoryInspection {
        outcome: RepositoryInspectionOutcome::Inspected,
        message: None,
        worktrees: vec![WorktreeInspection {
            classification: WorktreeClassification::UpstreamMissing,
            ..candidate()
        }],
    };
    let found = match integrate(&path("/r"), inspection, 1, &vec![Reply::Command(CommandResult::TimedOut)], 0) {
        Step::Done(found, 1) => found,
        step => panic!("unexpected {step:?}"),
    };
    assert_eq!(found.outcome, RepositoryInspectionOutcome::IntegrationFailed);
    assert_eq!(
        found.worktrees[0].classification,
        WorktreeClassification::WorktrunkFailed
    );
}
