//! Fetching a repository and classifying its worktrees.
pub mod laws;
pub mod listing;
pub mod model;

use crate::command;
use crate::command::{CommandLine, CommandResult, CommandResultView, Reply, ReplyView};
use crate::filepath::FilePath;
use crate::flow;
use crate::flow::{Flow, Step};
use crate::text;
use vstd::prelude::*;
use vstd::utf8::*;

verus! {

/// What became of the inspection of a repository.
#[derive(Debug, Clone, Copy, PartialEq, Eq, Structural)]
pub enum RepositoryInspectionOutcome {
    Inspected,
    FetchFailed,
    FetchTimedOut,
    MalformedPorcelain,
    IntegrationFailed,
    InspectionFailed,
}

impl DeepView for RepositoryInspectionOutcome {
    type V = RepositoryInspectionOutcome;

    open spec fn deep_view(&self) -> RepositoryInspectionOutcome {
        *self
    }
}

/// What is known of a worktree.
#[derive(Debug, Clone, Copy, PartialEq, Eq, Structural)]
pub enum WorktreeClassification {
    MainWorktree,
    UpstreamExists,
    NoUpstream,
    DetachedWorktree,
    DanglingSymbolicHead,
    PrunableWorktree,
    LockedWorktree,
    UpstreamMissing,
    IntegratedSameCommit,
    IntegratedAncestor,
    IntegratedNoAddedChanges,
    IntegratedTreesMatch,
    IntegratedMergeAddsNothing,
    IntegratedPatchIdMatch,
    NotIntegrated,
    IntegrationIndeterminate,
    DefaultBranchUnresolved,
    WorktrunkFailed,
    FetchFailed,
    FetchTimedOut,
    Malformed,
}

impl DeepView for WorktreeClassification {
    type V = WorktreeClassification;

    open spec fn deep_view(&self) -> WorktreeClassification {
        *self
    }
}

/// A worktree with what is known of it.
#[derive(Debug, PartialEq, Eq)]
pub struct WorktreeInspection {
    pub path: FilePath,
    /// The commit that was checked out when the worktree was classified.
    pub head: String,
    /// The branch that was checked out, as a full reference; none where none was.
    pub branch: Option<String>,
    pub classification: WorktreeClassification,
}

/// The content of a [`WorktreeInspection`].
pub struct WorktreeInspectionView {
    pub path: Seq<u8>,
    pub head: Seq<char>,
    pub branch: Option<Seq<char>>,
    pub classification: WorktreeClassification,
}

impl DeepView for WorktreeInspection {
    type V = WorktreeInspectionView;

    open spec fn deep_view(&self) -> WorktreeInspectionView {
        WorktreeInspectionView {
            path: self.path@,
            head: self.head@,
            branch: self.branch.deep_view(),
            classification: self.classification,
        }
    }
}

impl Clone for WorktreeInspection {
    fn clone(&self) -> (copy: Self)
        ensures
            copy.deep_view() == self.deep_view(),
    {
        WorktreeInspection {
            path: self.path.clone(),
            head: self.head.clone(),
            branch: text::clone_optional(&self.branch),
            classification: self.classification,
        }
    }
}

/// A repository with its worktrees.
#[derive(Debug, PartialEq, Eq)]
pub struct RepositoryInspection {
    pub outcome: RepositoryInspectionOutcome,
    pub message: Option<String>,
    pub worktrees: Vec<WorktreeInspection>,
}

/// The content of a [`RepositoryInspection`].
pub struct RepositoryInspectionView {
    pub outcome: RepositoryInspectionOutcome,
    pub message: Option<Seq<char>>,
    pub worktrees: Seq<WorktreeInspectionView>,
}

impl DeepView for RepositoryInspection {
    type V = RepositoryInspectionView;

    open spec fn deep_view(&self) -> RepositoryInspectionView {
        RepositoryInspectionView {
            outcome: self.outcome,
            message: self.message.deep_view(),
            worktrees: self.worktrees.deep_view(),
        }
    }
}

/// A worktree as Git lists it.
#[derive(Debug, PartialEq, Eq)]
pub struct InventoryWorktree {
    pub path: FilePath,
    pub head: String,
    pub branch: Option<String>,
    pub detached: bool,
    pub prunable: bool,
    pub bare: bool,
    pub locked: bool,
}

/// The content of a [`InventoryWorktree`].
pub struct InventoryWorktreeView {
    pub path: Seq<u8>,
    pub head: Seq<char>,
    pub branch: Option<Seq<char>>,
    pub detached: bool,
    pub prunable: bool,
    pub bare: bool,
    pub locked: bool,
}

impl DeepView for InventoryWorktree {
    type V = InventoryWorktreeView;

    open spec fn deep_view(&self) -> InventoryWorktreeView {
        InventoryWorktreeView {
            path: self.path@,
            head: self.head@,
            branch: self.branch.deep_view(),
            detached: self.detached,
            prunable: self.prunable,
            bare: self.bare,
            locked: self.locked,
        }
    }
}

/// Why there is no list of worktrees.
#[derive(Debug, PartialEq, Eq)]
pub enum InventoryFailure {
    /// Git did not produce one.
    Failed(String),
    /// What it produced cannot be read.
    Malformed(String),
}

/// The content of a [`InventoryFailure`].
pub enum InventoryFailureView {
    Failed(Seq<char>),
    Malformed(Seq<char>),
}

impl DeepView for InventoryFailure {
    type V = InventoryFailureView;

    open spec fn deep_view(&self) -> InventoryFailureView {
        match self {
            InventoryFailure::Failed(value) => InventoryFailureView::Failed(value@),
            InventoryFailure::Malformed(value) => InventoryFailureView::Malformed(value@),
        }
    }
}

/// What the fields of one record tell, apart from the path.
#[derive(Debug, PartialEq, Eq)]
pub struct RecordFacts {
    pub head: Option<String>,
    pub branch: Option<String>,
    pub detached: bool,
    pub prunable: bool,
    pub bare: bool,
    pub locked: bool,
}

/// The content of a [`RecordFacts`].
pub struct RecordFactsView {
    pub head: Option<Seq<char>>,
    pub branch: Option<Seq<char>>,
    pub detached: bool,
    pub prunable: bool,
    pub bare: bool,
    pub locked: bool,
}

impl DeepView for RecordFacts {
    type V = RecordFactsView;

    open spec fn deep_view(&self) -> RecordFactsView {
        RecordFactsView {
            head: self.head.deep_view(),
            branch: self.branch.deep_view(),
            detached: self.detached,
            prunable: self.prunable,
            bare: self.bare,
            locked: self.locked,
        }
    }
}

/// What is known before any field was read.
pub open spec fn no_facts() -> RecordFactsView {
    RecordFactsView {
        head: None,
        branch: None,
        detached: false,
        prunable: false,
        bare: false,
        locked: false,
    }
}

/// Whether a commit is the one that Git shows where there is none: all zeros.
pub open spec fn zero_oid(value: Seq<char>) -> bool {
    value.len() > 0 && forall|i: int| 0 <= i < value.len() ==> value[i] == '0'
}

/// Whether a commit is the one that Git shows where there is none.
pub fn is_zero_oid(value: &str) -> (result: bool)
    ensures
        result == zero_oid(value@),
{
    let digits = text::to_chars(value);
    let mut i: usize = 0;
    while i < digits.len()
        invariant
            i <= digits.len(),
            digits@ == value@,
            forall|j: int| 0 <= j < i ==> digits@[j] == '0',
        decreases digits.len() - i,
    {
        if digits[i] != '0' {
            return false;
        }
        i += 1;
    }
    digits.len() > 0
}

/// The complaint about a list of worktrees that cannot be read.
pub open spec fn malformed(complaint: Seq<char>) -> Seq<char> {
    "malformed worktree porcelain: "@ + complaint
}

fn malformed_message(complaint: &str) -> (message: String)
    ensures
        message@ == malformed(complaint@),
{
    text::concat2("malformed worktree porcelain: ", complaint)
}

/// The complaint about a field that occurs twice in a record.
pub open spec fn duplicate(name: Seq<char>) -> Seq<char> {
    malformed("duplicate "@ + name + " field"@)
}

fn duplicate_message(name: &str) -> (message: String)
    ensures
        message@ == duplicate(name@),
{
    malformed_message(text::concat3("duplicate ", name, " field").as_str())
}

/// The text of a field's value, which has to be some ASCII.
pub open spec fn ascii_value(value: Seq<u8>, name: Seq<char>) -> Result<Seq<char>, Seq<char>> {
    if value.len() == 0 || !text::ascii_bytes(value) {
        Err(malformed("invalid "@ + name + " value"@))
    } else {
        Ok(text::ascii_text(value))
    }
}

fn ascii(value: &Vec<u8>, name: &str) -> (result: Result<String, String>)
    ensures
        flow::result_view(result) == ascii_value(value@, name@),
{
    match text::from_ascii(value.as_slice()) {
        Some(value_text) if value.len() > 0 => Ok(value_text),
        _ => Err(malformed_message(text::concat3("invalid ", name, " value").as_str())),
    }
}

/// Whether a field is the given word, alone or with an explanation behind it.
pub open spec fn is_flag(field: Seq<u8>, word: Seq<char>, explained: Seq<char>) -> bool {
    field == encode_utf8(word) || encode_utf8(explained).is_prefix_of(field)
}

/// What is known once one more field was read.
pub open spec fn add_field(facts: RecordFactsView, field: Seq<u8>) -> Result<
    RecordFactsView,
    Seq<char>,
> {
    if let Some(value) = text::bytes_after(field, "HEAD "@) {
        match ascii_value(value, "HEAD"@) {
            Err(message) => Err(message),
            Ok(head) => if facts.head is Some {
                Err(duplicate("HEAD"@))
            } else {
                Ok(RecordFactsView { head: Some(head), ..facts })
            },
        }
    } else if let Some(value) = text::bytes_after(field, "branch "@) {
        match ascii_value(value, "branch"@) {
            Err(message) => Err(message),
            Ok(branch) => if facts.branch is Some {
                Err(duplicate("branch"@))
            } else {
                Ok(RecordFactsView { branch: Some(branch), ..facts })
            },
        }
    } else if field == encode_utf8("detached"@) {
        if facts.detached {
            Err(duplicate("detached"@))
        } else {
            Ok(RecordFactsView { detached: true, ..facts })
        }
    } else if field == encode_utf8("bare"@) {
        if facts.bare {
            Err(duplicate("bare"@))
        } else {
            Ok(RecordFactsView { bare: true, ..facts })
        }
    } else if is_flag(field, "prunable"@, "prunable "@) {
        if facts.prunable {
            Err(duplicate("prunable"@))
        } else {
            Ok(RecordFactsView { prunable: true, ..facts })
        }
    } else if is_flag(field, "locked"@, "locked "@) {
        Ok(RecordFactsView { locked: true, ..facts })
    } else {
        Err(malformed("unknown field "@ + text::quoted_text(text::lossy_text(field))))
    }
}

fn read_field(facts: RecordFacts, field: &Vec<u8>) -> (result: Result<RecordFacts, String>)
    ensures
        flow::result_view(result) == add_field(facts.deep_view(), field@),
{
    let bytes = field.as_slice();
    if let Some(value) = text::strip_bytes(bytes, "HEAD ") {
        match ascii(&value, "HEAD") {
            Err(message) => Err(message),
            Ok(head) => if facts.head.is_some() {
                Err(duplicate_message("HEAD"))
            } else {
                Ok(RecordFacts { head: Some(head), ..facts })
            },
        }
    } else if let Some(value) = text::strip_bytes(bytes, "branch ") {
        match ascii(&value, "branch") {
            Err(message) => Err(message),
            Ok(branch) => if facts.branch.is_some() {
                Err(duplicate_message("branch"))
            } else {
                Ok(RecordFacts { branch: Some(branch), ..facts })
            },
        }
    } else if text::bytes_are(bytes, "detached") {
        if facts.detached {
            Err(duplicate_message("detached"))
        } else {
            Ok(RecordFacts { detached: true, ..facts })
        }
    } else if text::bytes_are(bytes, "bare") {
        if facts.bare {
            Err(duplicate_message("bare"))
        } else {
            Ok(RecordFacts { bare: true, ..facts })
        }
    } else if text::bytes_are(bytes, "prunable") || text::bytes_start_with(bytes, "prunable ") {
        if facts.prunable {
            Err(duplicate_message("prunable"))
        } else {
            Ok(RecordFacts { prunable: true, ..facts })
        }
    } else if text::bytes_are(bytes, "locked") || text::bytes_start_with(bytes, "locked ") {
        Ok(RecordFacts { locked: true, ..facts })
    } else {
        let shown = text::quoted(text::lossy(bytes).as_str());
        Err(malformed_message(text::concat2("unknown field ", shown.as_str()).as_str()))
    }
}

/// What is known once all of `fields` were read, in order.
pub open spec fn add_fields(facts: RecordFactsView, fields: Seq<Seq<u8>>) -> Result<
    RecordFactsView,
    Seq<char>,
>
    decreases fields.len(),
{
    if fields.len() == 0 {
        Ok(facts)
    } else {
        match add_field(facts, fields[0]) {
            Err(message) => Err(message),
            Ok(more) => add_fields(more, fields.skip(1)),
        }
    }
}

/// The worktree that a record describes: its path, then its other fields.
pub open spec fn record_worktree(fields: Seq<Seq<u8>>) -> Result<InventoryWorktreeView, Seq<char>> {
    if fields.len() == 0 {
        Err(malformed("empty record"@))
    } else {
        match text::bytes_after(fields[0], "worktree "@) {
            None => Err(malformed("record does not start with worktree"@)),
            Some(path) => if path.len() == 0 {
                Err(malformed("empty worktree path"@))
            } else {
                match add_fields(no_facts(), fields.skip(1)) {
                    Err(message) => Err(message),
                    Ok(facts) => match facts.head {
                        None => Err(malformed("missing HEAD"@)),
                        Some(head) => if facts.detached && facts.branch is Some {
                            Err(malformed("worktree is both detached and on a branch"@))
                        } else {
                            Ok(
                                InventoryWorktreeView {
                                    path,
                                    head,
                                    branch: facts.branch,
                                    detached: facts.detached,
                                    prunable: facts.prunable,
                                    bare: facts.bare,
                                    locked: facts.locked,
                                },
                            )
                        },
                    },
                }
            },
        }
    }
}

/// Reads one record.
pub fn parse_record(fields: &Vec<Vec<u8>>) -> (result: Result<InventoryWorktree, String>)
    ensures
        flow::result_view(result) == record_worktree(text::contents(fields@)),
{
    if fields.len() == 0 {
        return Err(malformed_message("empty record"));
    }
    let ghost all = text::contents(fields@);
    assert(all[0] == fields@[0]@);
    let path = match text::strip_bytes(fields[0].as_slice(), "worktree ") {
        None => return Err(malformed_message("record does not start with worktree")),
        Some(path) => path,
    };
    if path.len() == 0 {
        return Err(malformed_message("empty worktree path"));
    }
    let mut facts = RecordFacts {
        head: None,
        branch: None,
        detached: false,
        prunable: false,
        bare: false,
        locked: false,
    };
    let mut i: usize = 1;
    while i < fields.len()
        invariant
            1 <= i <= fields.len(),
            all == text::contents(fields@),
            text::bytes_after(all[0], "worktree "@) == Some(path@),
            path@.len() > 0,
            add_fields(no_facts(), all.skip(1)) == add_fields(
                facts.deep_view(),
                all.skip(i as int),
            ),
        decreases fields.len() - i,
    {
        assert(all.skip(i as int)[0] == fields@[i as int]@);
        assert(all.skip(i as int).skip(1) =~= all.skip(i + 1));
        match read_field(facts, &fields[i]) {
            Err(message) => return Err(message),
            Ok(more) => facts = more,
        }
        i += 1;
    }
    assert(all.skip(i as int).len() == 0);
    let head = match facts.head {
        None => return Err(malformed_message("missing HEAD")),
        Some(head) => head,
    };
    if facts.detached && facts.branch.is_some() {
        return Err(malformed_message("worktree is both detached and on a branch"));
    }
    Ok(
        InventoryWorktree {
            path: FilePath::new(path),
            head,
            branch: facts.branch,
            detached: facts.detached,
            prunable: facts.prunable,
            bare: facts.bare,
            locked: facts.locked,
        },
    )
}

/// The worktrees of a list whose first records were read already, as far as `parsed`, and whose
/// next record starts with `fields`; `pieces` is the rest, cut at each NUL.
pub open spec fn parse_records(
    pieces: Seq<Seq<u8>>,
    fields: Seq<Seq<u8>>,
    parsed: Seq<InventoryWorktreeView>,
) -> Result<Seq<InventoryWorktreeView>, Seq<char>>
    decreases pieces.len(),
{
    if pieces.len() == 0 {
        if fields.len() > 0 {
            Err(malformed("record is not NUL-terminated"@))
        } else if parsed.len() == 0 {
            Err(malformed("no worktrees were returned"@))
        } else {
            Ok(parsed)
        }
    } else if pieces[0].len() > 0 {
        parse_records(pieces.skip(1), fields.push(pieces[0]), parsed)
    } else if fields.len() > 0 {
        match record_worktree(fields) {
            Err(message) => Err(message),
            Ok(worktree) => parse_records(pieces.skip(1), Seq::empty(), parsed.push(worktree)),
        }
    } else {
        parse_records(pieces.skip(1), fields, parsed)
    }
}

/// The worktrees of a NUL-separated list: the fields of a record end in NUL, and so does the
/// record.
pub open spec fn porcelain_worktrees(
    input: Seq<u8>,
) -> Result<Seq<InventoryWorktreeView>, Seq<char>> {
    if input.len() < 2 || input[input.len() - 1] != 0 || input[input.len() - 2] != 0 {
        Err(malformed("record is not NUL-terminated"@))
    } else {
        parse_records(text::split_bytes(input, 0, 0), Seq::empty(), Seq::empty())
    }
}

/// Reads a NUL-separated list of worktrees.
pub fn parse_porcelain(input: &Vec<u8>) -> (result: Result<Vec<InventoryWorktree>, String>)
    ensures
        flow::result_view(result) == porcelain_worktrees(input@),
{
    if input.len() < 2 || input[input.len() - 1] != 0 || input[input.len() - 2] != 0 {
        return Err(malformed_message("record is not NUL-terminated"));
    }
    let pieces = text::split_at_bytes(input.as_slice(), 0, 0);
    let ghost all = text::contents(pieces@);
    let mut fields: Vec<Vec<u8>> = Vec::new();
    let mut parsed: Vec<InventoryWorktree> = Vec::new();
    let mut i: usize = 0;
    assert(all.skip(0) =~= all);
    assert(text::contents(fields@) =~= Seq::empty());
    assert(parsed.deep_view() =~= Seq::empty());
    while i < pieces.len()
        invariant
            i <= pieces.len(),
            all == text::contents(pieces@),
            porcelain_worktrees(input@) == parse_records(
                all.skip(i as int),
                text::contents(fields@),
                parsed.deep_view(),
            ),
        decreases pieces.len() - i,
    {
        let ghost rest = all.skip(i as int);
        let ghost record = text::contents(fields@);
        let ghost before = parsed.deep_view();
        assert(rest[0] == pieces@[i as int]@);
        assert(rest.skip(1) =~= all.skip(i + 1));
        if pieces[i].len() > 0 {
            fields.push(text::clone_bytes(&pieces[i]));
            assert(text::contents(fields@) =~= record.push(rest[0]));
        } else if fields.len() > 0 {
            match parse_record(&fields) {
                Err(message) => return Err(message),
                Ok(worktree) => {
                    let ghost added = worktree.deep_view();
                    parsed.push(worktree);
                    assert(parsed.deep_view() =~= before.push(added));
                },
            }
            fields = Vec::new();
            assert(text::contents(fields@) =~= Seq::empty());
        } else {
            assert(record =~= Seq::empty());
        }
        i += 1;
    }
    assert(all.skip(i as int).len() == 0);
    if fields.len() > 0 {
        return Err(malformed_message("record is not NUL-terminated"));
    }
    if parsed.len() == 0 {
        return Err(malformed_message("no worktrees were returned"));
    }
    Ok(parsed)
}

/// The command that lists the worktrees of a repository.
pub open spec fn list_command(repository: Seq<u8>, timeout: u64) -> command::CommandLineView {
    command::git_command(
        "git"@,
        Some(repository),
        seq!["worktree"@, "list"@, "--porcelain"@, "-z"@],
        true,
        Some(timeout),
    )
}

fn new_list_command(repository: &FilePath, timeout: u64) -> (line: CommandLine)
    ensures
        line.deep_view() == list_command(repository@, timeout),
{
    let arguments = command::texts4("worktree", "list", "--porcelain", "-z");
    command::new_git_command("git", Some(repository.clone()), arguments, true, Some(timeout))
}

/// The command that brings the remote-tracking branches of a repository up to date.
pub open spec fn fetch_command(repository: Seq<u8>, timeout: u64) -> command::CommandLineView {
    command::git_command(
        "git"@,
        Some(repository),
        seq!["fetch"@, "--all"@, "--prune"@, "--no-recurse-submodules"@],
        false,
        Some(timeout),
    )
}

fn new_fetch_command(repository: &FilePath, timeout: u64) -> (line: CommandLine)
    ensures
        line.deep_view() == fetch_command(repository@, timeout),
{
    let arguments = command::texts4("fetch", "--all", "--prune", "--no-recurse-submodules");
    command::new_git_command("git", Some(repository.clone()), arguments, false, Some(timeout))
}

/// The worktrees that the list command reported.
pub open spec fn listed(result: CommandResultView) -> Result<
    Seq<InventoryWorktreeView>,
    InventoryFailureView,
> {
    match result {
        CommandResultView::Failed(error) => Err(
            InventoryFailureView::Failed("failed to run git worktree list: "@ + error),
        ),
        CommandResultView::TimedOut => Err(
            InventoryFailureView::Failed("git worktree list timed out"@),
        ),
        CommandResultView::Exited { code, stdout, stderr } => if command::succeeded(code) {
            match porcelain_worktrees(stdout) {
                Ok(worktrees) => Ok(worktrees),
                Err(message) => Err(InventoryFailureView::Malformed(message)),
            }
        } else {
            Err(
                InventoryFailureView::Failed(
                    "git worktree list failed: "@ + flow::stderr_text(stderr),
                ),
            )
        },
    }
}

fn read_list(
    result: &CommandResult,
) -> (worktrees: Result<Vec<InventoryWorktree>, InventoryFailure>)
    ensures
        flow::result_view(worktrees) == listed(result.deep_view()),
{
    match result {
        CommandResult::Failed(error) => Err(
            InventoryFailure::Failed(text::concat2("failed to run git worktree list: ", error.as_str())),
        ),
        CommandResult::TimedOut => Err(
            InventoryFailure::Failed("git worktree list timed out".to_owned()),
        ),
        CommandResult::Exited { code, stdout, stderr } => if command::is_success(*code) {
            match parse_porcelain(stdout) {
                Ok(worktrees) => Ok(worktrees),
                Err(message) => Err(InventoryFailure::Malformed(message)),
            }
        } else {
            let message = flow::stderr_message(stderr);
            Err(
                InventoryFailure::Failed(
                    text::concat2("git worktree list failed: ", message.as_str()),
                ),
            )
        },
    }
}

/// The list of worktrees of a repository, or why there is none.
pub open spec fn inventory_flow(
    repository: Seq<u8>,
    timeout: u64,
    replies: Seq<ReplyView>,
    at: int,
) -> Flow<Result<Seq<InventoryWorktreeView>, Seq<char>>> {
    match flow::run_flow(list_command(repository, timeout), replies, at) {
        Flow::Ask(request) => Flow::Ask(request),
        Flow::Done(result, next) => Flow::Done(
            match listed(result) {
                Ok(worktrees) => Ok(worktrees),
                Err(InventoryFailureView::Failed(message)) => Err(message),
                Err(InventoryFailureView::Malformed(message)) => Err(message),
            },
            next,
        ),
    }
}

/// The list of worktrees of a repository, or why there is none.
pub fn worktree_inventory(
    repository: &FilePath,
    timeout: u64,
    replies: &Vec<Reply>,
    at: usize,
) -> (step: Step<Result<Vec<InventoryWorktree>, String>>)
    ensures
        flow::step_view(step) == inventory_flow(
            repository@,
            timeout,
            replies.deep_view(),
            at as int,
        ),
{
    match flow::run_step(new_list_command(repository, timeout), replies, at) {
        Step::Ask(request) => Step::Ask(request),
        Step::Done(result, next) => Step::Done(
            match read_list(&result) {
                Ok(worktrees) => Ok(worktrees),
                Err(InventoryFailure::Failed(message)) => Err(message),
                Err(InventoryFailure::Malformed(message)) => Err(message),
            },
            next,
        ),
    }
}

/// Why a command did not answer.
pub open spec fn command_error(name: Seq<char>, result: CommandResultView) -> Option<Seq<char>> {
    match result {
        CommandResultView::Failed(error) => Some("failed to run "@ + name + ": "@ + error),
        CommandResultView::TimedOut => Some(name + " timed out"@),
        _ => None,
    }
}

/// The command that tells whether a reference exists.
pub open spec fn ref_command(
    repository: Seq<u8>,
    reference: Seq<char>,
    timeout: u64,
) -> command::CommandLineView {
    command::git_command(
        "git"@,
        Some(repository),
        seq!["show-ref"@, "--verify"@, "--quiet"@, "--"@, reference],
        true,
        Some(timeout),
    )
}

/// Whether the reference exists, as Git's exit code tells it.
pub open spec fn ref_found(result: CommandResultView, reference: Seq<char>) -> Result<
    bool,
    Seq<char>,
> {
    match result {
        CommandResultView::Exited { code, stdout, stderr } => if code == Some(0i32) {
            Ok(true)
        } else if code == Some(1i32) {
            Ok(false)
        } else {
            Err(
                "git show-ref failed for "@ + reference + ": "@ + flow::stderr_text(stderr),
            )
        },
        _ => Err(command_error("git show-ref"@, result)->0),
    }
}

/// Whether a reference exists.
pub open spec fn ref_flow(
    repository: Seq<u8>,
    reference: Seq<char>,
    timeout: u64,
    replies: Seq<ReplyView>,
    at: int,
) -> Flow<Result<bool, Seq<char>>> {
    match flow::run_flow(ref_command(repository, reference, timeout), replies, at) {
        Flow::Ask(request) => Flow::Ask(request),
        Flow::Done(result, next) => Flow::Done(ref_found(result, reference), next),
    }
}

fn read_ref(result: &CommandResult, reference: &str) -> (found: Result<bool, String>)
    ensures
        flow::result_view(found) == ref_found(result.deep_view(), reference@),
{
    match result {
        CommandResult::Failed(error) => Err(
            text::concat4("failed to run ", "git show-ref", ": ", error.as_str()),
        ),
        CommandResult::TimedOut => Err(text::concat2("git show-ref", " timed out")),
        CommandResult::Exited { code, stdout, stderr } => {
            if let Some(code) = code {
                if *code == 0 {
                    return Ok(true);
                }
                if *code == 1 {
                    return Ok(false);
                }
            }
            let message = flow::stderr_message(stderr);
            Err(text::concat4("git show-ref failed for ", reference, ": ", message.as_str()))
        },
    }
}

fn ref_exists(
    repository: &FilePath,
    reference: &str,
    timeout: u64,
    replies: &Vec<Reply>,
    at: usize,
) -> (step: Step<Result<bool, String>>)
    ensures
        flow::step_view(step) == ref_flow(
            repository@,
            reference@,
            timeout,
            replies.deep_view(),
            at as int,
        ),
{
    let mut arguments = command::texts4("show-ref", "--verify", "--quiet", "--");
    text::push_text(&mut arguments, reference);
    assert(arguments.deep_view() =~= seq![
        "show-ref"@,
        "--verify"@,
        "--quiet"@,
        "--"@,
        reference@,
    ]);
    let line = command::new_git_command(
        "git",
        Some(repository.clone()),
        arguments,
        true,
        Some(timeout),
    );
    match flow::run_step(line, replies, at) {
        Step::Ask(request) => Step::Ask(request),
        Step::Done(result, next) => Step::Done(read_ref(&result, reference), next),
    }
}

/// The command that tells the upstream of a branch.
pub open spec fn upstream_command(
    repository: Seq<u8>,
    branch: Seq<char>,
    timeout: u64,
) -> command::CommandLineView {
    command::git_command(
        "git"@,
        Some(repository),
        seq!["for-each-ref"@, "--format=%(upstream)"@, "--count=1"@, branch],
        true,
        Some(timeout),
    )
}

/// The upstream of a branch, as Git printed it; none where it printed nothing.
pub open spec fn upstream_found(result: CommandResultView, branch: Seq<char>) -> Result<
    Option<Seq<char>>,
    Seq<char>,
> {
    match result {
        CommandResultView::Exited { code, stdout, stderr } => if !command::succeeded(code) {
            Err(
                "git for-each-ref failed for "@ + branch + ": "@ + flow::stderr_text(stderr),
            )
        } else {
            match text::utf8_text(stdout) {
                Err(error) => Err(
                    "git returned a non-UTF-8 upstream for "@ + branch + ": "@ + error,
                ),
                Ok(upstream) => if text::trimmed(upstream).len() == 0 {
                    Ok(None)
                } else {
                    Ok(Some(text::trimmed(upstream)))
                },
            }
        },
        _ => Err(command_error("git for-each-ref"@, result)->0),
    }
}

/// The upstream of a branch.
pub open spec fn upstream_flow(
    repository: Seq<u8>,
    branch: Seq<char>,
    timeout: u64,
    replies: Seq<ReplyView>,
    at: int,
) -> Flow<Result<Option<Seq<char>>, Seq<char>>> {
    match flow::run_flow(upstream_command(repository, branch, timeout), replies, at) {
        Flow::Ask(request) => Flow::Ask(request),
        Flow::Done(result, next) => Flow::Done(upstream_found(result, branch), next),
    }
}

fn read_upstream(result: &CommandResult, branch: &str) -> (upstream: Result<Option<String>, String>)
    ensures
        flow::result_view(upstream) == upstream_found(result.deep_view(), branch@),
{
    match result {
        CommandResult::Failed(error) => Err(
            text::concat4("failed to run ", "git for-each-ref", ": ", error.as_str()),
        ),
        CommandResult::TimedOut => Err(text::concat2("git for-each-ref", " timed out")),
        CommandResult::Exited { code, stdout, stderr } => {
            if !command::is_success(*code) {
                let message = flow::stderr_message(stderr);
                return Err(
                    text::concat4("git for-each-ref failed for ", branch, ": ", message.as_str()),
                );
            }
            match text::from_utf8(stdout.as_slice()) {
                Err(error) => Err(
                    text::concat4(
                        "git returned a non-UTF-8 upstream for ",
                        branch,
                        ": ",
                        error.as_str(),
                    ),
                ),
                Ok(upstream) => {
                    let upstream = text::trim(upstream.as_str());
                    if text::is_blank(upstream.as_str()) {
                        Ok(None)
                    } else {
                        Ok(Some(upstream))
                    }
                },
            }
        },
    }
}

fn branch_upstream(
    repository: &FilePath,
    branch: &str,
    timeout: u64,
    replies: &Vec<Reply>,
    at: usize,
) -> (step: Step<Result<Option<String>, String>>)
    ensures
        flow::step_view(step) == upstream_flow(
            repository@,
            branch@,
            timeout,
            replies.deep_view(),
            at as int,
        ),
{
    let arguments = command::texts4(
        "for-each-ref",
        "--format=%(upstream)",
        "--count=1",
        branch,
    );
    let line = command::new_git_command(
        "git",
        Some(repository.clone()),
        arguments,
        true,
        Some(timeout),
    );
    match flow::run_step(line, replies, at) {
        Step::Ask(request) => Step::Ask(request),
        Step::Done(result, next) => Step::Done(read_upstream(&result, branch), next),
    }
}

/// A classification, and what stood in its way.
#[derive(Debug, PartialEq, Eq)]
pub struct Classified {
    pub classification: WorktreeClassification,
    pub issue: Option<String>,
}

/// The content of a [`Classified`].
pub struct ClassifiedView {
    pub classification: WorktreeClassification,
    pub issue: Option<Seq<char>>,
}

impl DeepView for Classified {
    type V = ClassifiedView;

    open spec fn deep_view(&self) -> ClassifiedView {
        ClassifiedView {
            classification: self.classification,
            issue: self.issue.deep_view(),
        }
    }
}

/// A classification that nothing stood in the way of.
pub open spec fn classified(classification: WorktreeClassification) -> ClassifiedView {
    ClassifiedView { classification, issue: None }
}

/// A worktree that cannot be classified, and why.
pub open spec fn unclassified(issue: Seq<char>) -> ClassifiedView {
    ClassifiedView { classification: WorktreeClassification::Malformed, issue: Some(issue) }
}

fn new_classified(classification: WorktreeClassification) -> (result: Classified)
    ensures
        result.deep_view() == classified(classification),
{
    Classified { classification, issue: None }
}

fn new_unclassified(issue: String) -> (result: Classified)
    ensures
        result.deep_view() == unclassified(issue@),
{
    Classified { classification: WorktreeClassification::Malformed, issue: Some(issue) }
}

/// The classification of a worktree that is on `branch`: whether the branch and its upstream
/// exist.
pub open spec fn classify_branch_flow(
    repository: Seq<u8>,
    branch: Seq<char>,
    timeout: u64,
    replies: Seq<ReplyView>,
    at: int,
) -> Flow<ClassifiedView> {
    match ref_flow(repository, branch, timeout, replies, at) {
        Flow::Ask(request) => Flow::Ask(request),
        Flow::Done(Err(message), next) => Flow::Done(unclassified(message), next),
        Flow::Done(Ok(false), next) => Flow::Done(
            classified(WorktreeClassification::DanglingSymbolicHead),
            next,
        ),
        Flow::Done(Ok(true), next) => match upstream_flow(
            repository,
            branch,
            timeout,
            replies,
            next,
        ) {
            Flow::Ask(request) => Flow::Ask(request),
            Flow::Done(Err(message), next) => Flow::Done(unclassified(message), next),
            Flow::Done(Ok(None), next) => Flow::Done(
                classified(WorktreeClassification::NoUpstream),
                next,
            ),
            Flow::Done(Ok(Some(upstream)), next) => match ref_flow(
                repository,
                upstream,
                timeout,
                replies,
                next,
            ) {
                Flow::Ask(request) => Flow::Ask(request),
                Flow::Done(Err(message), next) => Flow::Done(unclassified(message), next),
                Flow::Done(Ok(true), next) => Flow::Done(
                    classified(WorktreeClassification::UpstreamExists),
                    next,
                ),
                Flow::Done(Ok(false), next) => Flow::Done(
                    classified(WorktreeClassification::UpstreamMissing),
                    next,
                ),
            },
        },
    }
}

fn classify_branch(
    repository: &FilePath,
    branch: &str,
    timeout: u64,
    replies: &Vec<Reply>,
    at: usize,
) -> (step: Step<Classified>)
    ensures
        step.deep_view() == classify_branch_flow(
            repository@,
            branch@,
            timeout,
            replies.deep_view(),
            at as int,
        ),
{
    match ref_exists(repository, branch, timeout, replies, at) {
        Step::Ask(request) => Step::Ask(request),
        Step::Done(Err(message), next) => Step::Done(new_unclassified(message), next),
        Step::Done(Ok(false), next) => Step::Done(
            new_classified(WorktreeClassification::DanglingSymbolicHead),
            next,
        ),
        Step::Done(Ok(true), next) => match branch_upstream(
            repository,
            branch,
            timeout,
            replies,
            next,
        ) {
            Step::Ask(request) => Step::Ask(request),
            Step::Done(Err(message), next) => Step::Done(new_unclassified(message), next),
            Step::Done(Ok(None), next) => Step::Done(
                new_classified(WorktreeClassification::NoUpstream),
                next,
            ),
            Step::Done(Ok(Some(upstream)), next) => match ref_exists(
                repository,
                upstream.as_str(),
                timeout,
                replies,
                next,
            ) {
                Step::Ask(request) => Step::Ask(request),
                Step::Done(Err(message), next) => Step::Done(new_unclassified(message), next),
                Step::Done(Ok(true), next) => Step::Done(
                    new_classified(WorktreeClassification::UpstreamExists),
                    next,
                ),
                Step::Done(Ok(false), next) => Step::Done(
                    new_classified(WorktreeClassification::UpstreamMissing),
                    next,
                ),
            },
        },
    }
}

/// The classification of one worktree; the first one of a list is the main worktree.
pub open spec fn classify_flow(
    repository: Seq<u8>,
    worktree: InventoryWorktreeView,
    first: bool,
    timeout: u64,
    replies: Seq<ReplyView>,
    at: int,
) -> Flow<ClassifiedView> {
    if first || worktree.bare {
        Flow::Done(classified(WorktreeClassification::MainWorktree), at)
    } else if worktree.prunable {
        Flow::Done(classified(WorktreeClassification::PrunableWorktree), at)
    } else if worktree.detached {
        Flow::Done(classified(WorktreeClassification::DetachedWorktree), at)
    } else {
        match worktree.branch {
            Some(branch) => classify_branch_flow(repository, branch, timeout, replies, at),
            None => Flow::Done(
                unclassified(
                    "worktree "@ + text::lossy_text(worktree.path)
                        + " is neither detached nor associated with a branch"@,
                ),
                at,
            ),
        }
    }
}

fn classify_worktree(
    repository: &FilePath,
    worktree: &InventoryWorktree,
    first: bool,
    timeout: u64,
    replies: &Vec<Reply>,
    at: usize,
) -> (step: Step<Classified>)
    ensures
        step.deep_view() == classify_flow(
            repository@,
            worktree.deep_view(),
            first,
            timeout,
            replies.deep_view(),
            at as int,
        ),
{
    if first || worktree.bare {
        Step::Done(new_classified(WorktreeClassification::MainWorktree), at)
    } else if worktree.prunable {
        Step::Done(new_classified(WorktreeClassification::PrunableWorktree), at)
    } else if worktree.detached {
        Step::Done(new_classified(WorktreeClassification::DetachedWorktree), at)
    } else {
        match &worktree.branch {
            Some(branch) => classify_branch(repository, branch.as_str(), timeout, replies, at),
            None => {
                let path = worktree.path.display();
                Step::Done(
                    new_unclassified(
                        text::concat3(
                            "worktree ",
                            path.as_str(),
                            " is neither detached nor associated with a branch",
                        ),
                    ),
                    at,
                )
            },
        }
    }
}

/// A listed worktree with its classification.
pub open spec fn inspected(
    worktree: InventoryWorktreeView,
    classification: WorktreeClassification,
) -> WorktreeInspectionView {
    WorktreeInspectionView {
        path: worktree.path,
        head: worktree.head,
        branch: worktree.branch,
        classification,
    }
}

fn new_inspected(
    worktree: &InventoryWorktree,
    classification: WorktreeClassification,
) -> (inspection: WorktreeInspection)
    ensures
        inspection.deep_view() == inspected(worktree.deep_view(), classification),
{
    WorktreeInspection {
        path: worktree.path.clone(),
        head: worktree.head.clone(),
        branch: text::clone_optional(&worktree.branch),
        classification,
    }
}

/// All worktrees with one and the same classification.
pub open spec fn all_classified(
    worktrees: Seq<InventoryWorktreeView>,
    classification: WorktreeClassification,
) -> Seq<WorktreeInspectionView> {
    Seq::new(worktrees.len(), |i: int| inspected(worktrees[i], classification))
}

fn classify_without_fetch(
    worktrees: &Vec<InventoryWorktree>,
    classification: WorktreeClassification,
) -> (inspections: Vec<WorktreeInspection>)
    ensures
        inspections.deep_view() == all_classified(worktrees.deep_view(), classification),
{
    let mut inspections: Vec<WorktreeInspection> = Vec::new();
    let mut i: usize = 0;
    while i < worktrees.len()
        invariant
            i <= worktrees.len(),
            inspections.deep_view() == all_classified(worktrees.deep_view(), classification).take(
                i as int,
            ),
        decreases worktrees.len() - i,
    {
        let ghost before = inspections.deep_view();
        let inspection = new_inspected(&worktrees[i], classification);
        let ghost added = inspection.deep_view();
        inspections.push(inspection);
        assert(inspections.deep_view() =~= before.push(added));
        assert(inspections.deep_view() =~= all_classified(
            worktrees.deep_view(),
            classification,
        ).take(i + 1));
        i += 1;
    }
    assert(all_classified(worktrees.deep_view(), classification).take(i as int)
        =~= all_classified(worktrees.deep_view(), classification));
    inspections
}

/// The first of two issues.
pub open spec fn first_issue(
    issue: Option<Seq<char>>,
    other: Option<Seq<char>>,
) -> Option<Seq<char>> {
    if issue is Some {
        issue
    } else {
        other
    }
}

/// The inspection that the worktrees from `i` on complete, `done` being what is known of those
/// before, and `issue` the first thing that stood in the way.
pub open spec fn classify_all_flow(
    repository: Seq<u8>,
    timeout: u64,
    worktrees: Seq<InventoryWorktreeView>,
    i: int,
    done: Seq<WorktreeInspectionView>,
    issue: Option<Seq<char>>,
    replies: Seq<ReplyView>,
    at: int,
) -> Flow<RepositoryInspectionView>
    decreases worktrees.len() - i,
{
    if i >= worktrees.len() {
        Flow::Done(
            RepositoryInspectionView {
                outcome: if issue is Some {
                    RepositoryInspectionOutcome::InspectionFailed
                } else {
                    RepositoryInspectionOutcome::Inspected
                },
                message: issue,
                worktrees: done,
            },
            at,
        )
    } else {
        match classify_flow(repository, worktrees[i], i == 0, timeout, replies, at) {
            Flow::Ask(request) => Flow::Ask(request),
            Flow::Done(found, next) => classify_all_flow(
                repository,
                timeout,
                worktrees,
                i + 1,
                done.push(inspected(worktrees[i], found.classification)),
                first_issue(issue, found.issue),
                replies,
                next,
            ),
        }
    }
}

fn classify_after_fetch(
    repository: &FilePath,
    timeout: u64,
    worktrees: &Vec<InventoryWorktree>,
    replies: &Vec<Reply>,
    at: usize,
) -> (step: Step<RepositoryInspection>)
    ensures
        step.deep_view() == classify_all_flow(
            repository@,
            timeout,
            worktrees.deep_view(),
            0,
            Seq::empty(),
            None,
            replies.deep_view(),
            at as int,
        ),
{
    let ghost all = worktrees.deep_view();
    let ghost goal = classify_all_flow(
        repository@,
        timeout,
        all,
        0,
        Seq::empty(),
        None,
        replies.deep_view(),
        at as int,
    );
    let mut done: Vec<WorktreeInspection> = Vec::new();
    let mut issue: Option<String> = None;
    let mut position: usize = at;
    let mut i: usize = 0;
    assert(done.deep_view() =~= Seq::empty());
    while i < worktrees.len()
        invariant
            i <= worktrees.len(),
            all == worktrees.deep_view(),
            goal == classify_all_flow(
                repository@,
                timeout,
                all,
                0,
                Seq::empty(),
                None,
                replies.deep_view(),
                at as int,
            ),
            goal == classify_all_flow(
                repository@,
                timeout,
                all,
                i as int,
                done.deep_view(),
                issue.deep_view(),
                replies.deep_view(),
                position as int,
            ),
        decreases worktrees.len() - i,
    {
        let ghost before = done.deep_view();
        assert(all[i as int] == worktrees[i as int].deep_view());
        match classify_worktree(repository, &worktrees[i], i == 0, timeout, replies, position) {
            Step::Ask(request) => return Step::Ask(request),
            Step::Done(found, next) => {
                let inspection = new_inspected(&worktrees[i], found.classification);
                let ghost added = inspection.deep_view();
                done.push(inspection);
                assert(done.deep_view() =~= before.push(added));
                if issue.is_none() {
                    issue = found.issue;
                }
                position = next;
            },
        }
        i += 1;
    }
    let outcome = if issue.is_some() {
        RepositoryInspectionOutcome::InspectionFailed
    } else {
        RepositoryInspectionOutcome::Inspected
    };
    Step::Done(RepositoryInspection { outcome, message: issue, worktrees: done }, position)
}

/// An inspection that failed before any worktree was known.
pub open spec fn failed_inspection(
    outcome: RepositoryInspectionOutcome,
    message: Seq<char>,
) -> RepositoryInspectionView {
    RepositoryInspectionView { outcome, message: Some(message), worktrees: Seq::empty() }
}

fn new_failed_inspection(
    outcome: RepositoryInspectionOutcome,
    message: String,
) -> (inspection: RepositoryInspection)
    ensures
        inspection.deep_view() == failed_inspection(outcome, message@),
{
    let worktrees: Vec<WorktreeInspection> = Vec::new();
    assert(worktrees.deep_view() =~= Seq::empty());
    RepositoryInspection { outcome, message: Some(message), worktrees }
}

/// What a fetch that did not succeed leads to: the outcome, the classification of every
/// worktree, and the message. None where the fetch succeeded.
pub open spec fn fetch_failure(fetch: CommandResultView, timeout: u64) -> Option<
    (RepositoryInspectionOutcome, WorktreeClassification, Seq<char>),
> {
    match fetch {
        CommandResultView::TimedOut => Some(
            (
                RepositoryInspectionOutcome::FetchTimedOut,
                WorktreeClassification::FetchTimedOut,
                "git fetch exceeded timeout of "@ + text::decimal_text(timeout as nat)
                    + " seconds"@,
            ),
        ),
        CommandResultView::Failed(error) => Some(
            (
                RepositoryInspectionOutcome::FetchFailed,
                WorktreeClassification::FetchFailed,
                "failed to run git fetch: "@ + error,
            ),
        ),
        CommandResultView::Exited { code, stdout, stderr } => if command::succeeded(code) {
            None
        } else {
            Some(
                (
                    RepositoryInspectionOutcome::FetchFailed,
                    WorktreeClassification::FetchFailed,
                    "git fetch failed: "@ + flow::stderr_text(stderr),
                ),
            )
        },
    }
}

fn read_fetch(fetch: &CommandResult, timeout: u64) -> (failure: Option<
    (RepositoryInspectionOutcome, WorktreeClassification, String),
>)
    ensures
        failure.deep_view() == fetch_failure(fetch.deep_view(), timeout),
{
    match fetch {
        CommandResult::TimedOut => {
            let seconds = text::decimal(timeout);
            Some(
                (
                    RepositoryInspectionOutcome::FetchTimedOut,
                    WorktreeClassification::FetchTimedOut,
                    text::concat3("git fetch exceeded timeout of ", seconds.as_str(), " seconds"),
                ),
            )
        },
        CommandResult::Failed(error) => Some(
            (
                RepositoryInspectionOutcome::FetchFailed,
                WorktreeClassification::FetchFailed,
                text::concat2("failed to run git fetch: ", error.as_str()),
            ),
        ),
        CommandResult::Exited { code, stdout, stderr } => if command::is_success(*code) {
            None
        } else {
            let message = flow::stderr_message(stderr);
            Some(
                (
                    RepositoryInspectionOutcome::FetchFailed,
                    WorktreeClassification::FetchFailed,
                    text::concat2("git fetch failed: ", message.as_str()),
                ),
            )
        },
    }
}

/// What the fetch and the list of worktrees lead to.
pub open spec fn inspect_listed_flow(
    repository: Seq<u8>,
    timeout: u64,
    fetch: CommandResultView,
    list: CommandResultView,
    replies: Seq<ReplyView>,
    at: int,
) -> Flow<RepositoryInspectionView> {
    match listed(list) {
        Err(InventoryFailureView::Failed(message)) => Flow::Done(
            failed_inspection(RepositoryInspectionOutcome::InspectionFailed, message),
            at,
        ),
        Err(InventoryFailureView::Malformed(message)) => Flow::Done(
            failed_inspection(RepositoryInspectionOutcome::MalformedPorcelain, message),
            at,
        ),
        Ok(worktrees) => match fetch_failure(fetch, timeout) {
            Some((outcome, classification, message)) => Flow::Done(
                RepositoryInspectionView {
                    outcome,
                    message: Some(message),
                    worktrees: all_classified(worktrees, classification),
                },
                at,
            ),
            None => classify_all_flow(
                repository,
                timeout,
                worktrees,
                0,
                Seq::empty(),
                None,
                replies,
                at,
            ),
        },
    }
}

/// The inspection of a repository: it is fetched, its worktrees are listed, and each of them is
/// classified.
pub open spec fn inspect_flow(
    repository: Seq<u8>,
    timeout: u64,
    replies: Seq<ReplyView>,
    at: int,
) -> Flow<RepositoryInspectionView> {
    match flow::run_flow(fetch_command(repository, timeout), replies, at) {
        Flow::Ask(request) => Flow::Ask(request),
        Flow::Done(fetch, next) => match flow::run_flow(
            list_command(repository, timeout),
            replies,
            next,
        ) {
            Flow::Ask(request) => Flow::Ask(request),
            Flow::Done(list, next) => inspect_listed_flow(
                repository,
                timeout,
                fetch,
                list,
                replies,
                next,
            ),
        },
    }
}

/// Fetches and classifies all worktrees belonging to a repository.
///
/// A failed fetch prevents all branch and upstream classification. The list of worktrees is
/// still reported, but every entry records the fetch failure instead of a removal decision.
pub fn inspect_repository(
    repository: &FilePath,
    fetch_timeout: u64,
    replies: &Vec<Reply>,
    at: usize,
) -> (step: Step<RepositoryInspection>)
    ensures
        step.deep_view() == inspect_flow(
            repository@,
            fetch_timeout,
            replies.deep_view(),
            at as int,
        ),
{
    let (fetch, next) = match flow::run_step(
        new_fetch_command(repository, fetch_timeout),
        replies,
        at,
    ) {
        Step::Ask(request) => return Step::Ask(request),
        Step::Done(fetch, next) => (fetch, next),
    };
    let (list, next) = match flow::run_step(
        new_list_command(repository, fetch_timeout),
        replies,
        next,
    ) {
        Step::Ask(request) => return Step::Ask(request),
        Step::Done(list, next) => (list, next),
    };
    match read_list(&list) {
        Err(InventoryFailure::Failed(message)) => Step::Done(
            new_failed_inspection(RepositoryInspectionOutcome::InspectionFailed, message),
            next,
        ),
        Err(InventoryFailure::Malformed(message)) => Step::Done(
            new_failed_inspection(RepositoryInspectionOutcome::MalformedPorcelain, message),
            next,
        ),
        Ok(worktrees) => match read_fetch(&fetch, fetch_timeout) {
            Some((outcome, classification, message)) => Step::Done(
                RepositoryInspection {
                    outcome,
                    message: Some(message),
                    worktrees: classify_without_fetch(&worktrees, classification),
                },
                next,
            ),
            None => classify_after_fetch(repository, fetch_timeout, &worktrees, replies, next),
        },
    }
}

} // verus!
