//! Finding the repositories below the configured roots.
pub mod laws;
pub mod tree;
pub mod world;

use crate::command;
use crate::command::{CommandLine, CommandResult, CommandResultView, PathFailure, PathFailureKind};
use crate::command::{PathFailureView, Reply, ReplyView, Request, RequestView};
use crate::filepath;
use crate::filepath::{FilePath, Parts};
use crate::flow;
use crate::flow::{Flow, Step};
use crate::text;
use vstd::prelude::*;
use vstd::utf8::*;

verus! {

/// A repository: its main working directory and its Git common directory.
#[derive(Debug, PartialEq, Eq)]
pub struct Repository {
    pub path: FilePath,
    pub git_common_directory: FilePath,
}

/// The content of a [`Repository`].
pub struct RepositoryView {
    pub path: Seq<u8>,
    pub git_common_directory: Seq<u8>,
}

impl DeepView for Repository {
    type V = RepositoryView;

    open spec fn deep_view(&self) -> RepositoryView {
        RepositoryView {
            path: self.path@,
            git_common_directory: self.git_common_directory@,
        }
    }
}

impl Clone for Repository {
    fn clone(&self) -> (copy: Self)
        ensures
            copy.deep_view() == self.deep_view(),
    {
        Repository {
            path: self.path.clone(),
            git_common_directory: self.git_common_directory.clone(),
        }
    }
}

/// The kind of a problem.
#[derive(Debug, Clone, Copy, PartialEq, Eq, Structural)]
pub enum DiscoveryIssueKind {
    InaccessibleRoot,
    InaccessibleDirectory,
    UnsafeCanonicalization,
    InvalidGitMetadata,
}

impl DeepView for DiscoveryIssueKind {
    type V = DiscoveryIssueKind;

    open spec fn deep_view(&self) -> DiscoveryIssueKind {
        *self
    }
}

/// A problem on the way.
#[derive(Debug, PartialEq, Eq)]
pub struct DiscoveryIssue {
    pub path: FilePath,
    pub kind: DiscoveryIssueKind,
    pub message: String,
}

/// The content of a [`DiscoveryIssue`].
pub struct DiscoveryIssueView {
    pub path: Seq<u8>,
    pub kind: DiscoveryIssueKind,
    pub message: Seq<char>,
}

impl DeepView for DiscoveryIssue {
    type V = DiscoveryIssueView;

    open spec fn deep_view(&self) -> DiscoveryIssueView {
        DiscoveryIssueView {
            path: self.path@,
            kind: self.kind,
            message: self.message@,
        }
    }
}

impl Clone for DiscoveryIssue {
    fn clone(&self) -> (copy: Self)
        ensures
            copy.deep_view() == self.deep_view(),
    {
        DiscoveryIssue {
            path: self.path.clone(),
            kind: self.kind,
            message: self.message.clone(),
        }
    }
}

/// What was found.
#[derive(Debug, PartialEq, Eq)]
pub struct Discovery {
    pub repositories: Vec<Repository>,
    pub issues: Vec<DiscoveryIssue>,
}

/// The content of a [`Discovery`].
pub struct DiscoveryView {
    pub repositories: Seq<RepositoryView>,
    pub issues: Seq<DiscoveryIssueView>,
}

impl DeepView for Discovery {
    type V = DiscoveryView;

    open spec fn deep_view(&self) -> DiscoveryView {
        DiscoveryView {
            repositories: self.repositories.deep_view(),
            issues: self.issues.deep_view(),
        }
    }
}

/// What an entry of a directory is.
#[derive(Debug, PartialEq, Eq)]
pub enum EntryKind {
    /// A directory, and not a symbolic link to one.
    Directory,
    /// Something else.
    Other,
    /// It could not be found out, for the given reason.
    Unknown(String),
}

/// The content of a [`EntryKind`].
pub enum EntryKindView {
    Directory,
    Other,
    Unknown(Seq<char>),
}

impl DeepView for EntryKind {
    type V = EntryKindView;

    open spec fn deep_view(&self) -> EntryKindView {
        match self {
            EntryKind::Directory => EntryKindView::Directory,
            EntryKind::Other => EntryKindView::Other,
            EntryKind::Unknown(value) => EntryKindView::Unknown(value@),
        }
    }
}

impl Clone for EntryKind {
    fn clone(&self) -> (copy: Self)
        ensures
            copy.deep_view() == self.deep_view(),
    {
        match self {
            EntryKind::Directory => EntryKind::Directory,
            EntryKind::Other => EntryKind::Other,
            EntryKind::Unknown(value) => EntryKind::Unknown(value.clone()),
        }
    }
}

/// An entry of a directory.
#[derive(Debug, PartialEq, Eq)]
pub struct DirectoryEntry {
    pub name: FilePath,
    pub kind: EntryKind,
}

/// The content of a [`DirectoryEntry`].
pub struct DirectoryEntryView {
    pub name: Seq<u8>,
    pub kind: EntryKindView,
}

impl DeepView for DirectoryEntry {
    type V = DirectoryEntryView;

    open spec fn deep_view(&self) -> DirectoryEntryView {
        DirectoryEntryView {
            name: self.name@,
            kind: self.kind.deep_view(),
        }
    }
}

impl Clone for DirectoryEntry {
    fn clone(&self) -> (copy: Self)
        ensures
            copy.deep_view() == self.deep_view(),
    {
        DirectoryEntry {
            name: self.name.clone(),
            kind: self.kind.clone(),
        }
    }
}

/// The order of the entries of a directory: by the bytes of their names.
pub open spec fn entry_order() -> spec_fn(DirectoryEntryView, DirectoryEntryView) -> bool {
    |left: DirectoryEntryView, right: DirectoryEntryView|
        filepath::bytes_before(left.name, right.name)
}

/// The order of repositories: by their paths.
pub open spec fn repository_order() -> spec_fn(RepositoryView, RepositoryView) -> bool {
    |left: RepositoryView, right: RepositoryView| filepath::path_before(left.path, right.path)
}

/// The items, which are in order, with one more behind those that it does not come before.
pub open spec fn insert_by<T>(items: Seq<T>, item: T, before: spec_fn(T, T) -> bool) -> Seq<T>
    decreases items.len(),
{
    if items.len() > 0 && before(item, items.last()) {
        insert_by(items.drop_last(), item, before).push(items.last())
    } else {
        items.push(item)
    }
}

/// The items in order; those of the same rank stay in their order.
pub open spec fn sort_by<T>(items: Seq<T>, before: spec_fn(T, T) -> bool) -> Seq<T>
    decreases items.len(),
{
    if items.len() == 0 {
        Seq::empty()
    } else {
        insert_by(sort_by(items.drop_last(), before), items.last(), before)
    }
}

proof fn lemma_insert_at<T>(items: Seq<T>, item: T, before: spec_fn(T, T) -> bool, at: int)
    requires
        0 <= at <= items.len(),
        forall|j: int| at <= j < items.len() ==> before(item, #[trigger] items[j]),
        at > 0 ==> !before(item, items[at - 1]),
    ensures
        insert_by(items, item, before) == items.insert(at, item),
    decreases items.len(),
{
    if at < items.len() {
        let shorter = items.drop_last();
        assert(before(item, items[items.len() - 1]));
        assert forall|j: int| at <= j < shorter.len() implies before(
            item,
            #[trigger] shorter[j],
        ) by {
            assert(before(item, items[j]));
        }
        lemma_insert_at(shorter, item, before, at);
        assert(shorter.insert(at, item).push(items.last()) =~= items.insert(at, item));
    } else {
        assert(items.push(item) =~= items.insert(at, item));
    }
}

fn sort_entries(entries: &Vec<DirectoryEntry>) -> (sorted: Vec<DirectoryEntry>)
    ensures
        sorted.deep_view() == sort_by(entries.deep_view(), entry_order()),
{
    let ghost all = entries.deep_view();
    let ghost order = entry_order();
    let mut sorted: Vec<DirectoryEntry> = Vec::new();
    let mut i: usize = 0;
    assert(all.take(0) =~= Seq::empty());
    assert(sorted.deep_view() =~= Seq::empty());
    while i < entries.len()
        invariant
            i <= entries.len(),
            all == entries.deep_view(),
            order == entry_order(),
            sorted.deep_view() == sort_by(all.take(i as int), order),
            sorted.len() == i,
        decreases entries.len() - i,
    {
        let ghost before = sorted.deep_view();
        let entry = entries[i].clone();
        let ghost added = entry.deep_view();
        assert(all.take(i + 1).drop_last() =~= all.take(i as int));
        assert(all.take(i + 1).last() == added);
        let mut at: usize = sorted.len();
        while at > 0 && filepath::is_bytes_before(&entry.name.bytes, &sorted[at - 1].name.bytes)
            invariant
                at <= sorted.len(),
                before == sorted.deep_view(),
                added == entry.deep_view(),
                order == entry_order(),
                forall|j: int| at <= j < before.len() ==> order(added, #[trigger] before[j]),
            decreases at,
        {
            at -= 1;
        }
        proof {
            lemma_insert_at(before, added, order, at as int);
        }
        sorted.insert(at, entry);
        assert(sorted.deep_view() =~= before.insert(at as int, added));
        i += 1;
    }
    assert(all.take(i as int) =~= all);
    sorted
}

fn sort_repositories(repositories: &Vec<Repository>) -> (sorted: Vec<Repository>)
    ensures
        sorted.deep_view() == sort_by(repositories.deep_view(), repository_order()),
{
    let ghost all = repositories.deep_view();
    let ghost order = repository_order();
    let mut sorted: Vec<Repository> = Vec::new();
    let mut i: usize = 0;
    assert(all.take(0) =~= Seq::empty());
    assert(sorted.deep_view() =~= Seq::empty());
    while i < repositories.len()
        invariant
            i <= repositories.len(),
            all == repositories.deep_view(),
            order == repository_order(),
            sorted.deep_view() == sort_by(all.take(i as int), order),
            sorted.len() == i,
        decreases repositories.len() - i,
    {
        let ghost before = sorted.deep_view();
        let repository = repositories[i].clone();
        let ghost added = repository.deep_view();
        assert(all.take(i + 1).drop_last() =~= all.take(i as int));
        assert(all.take(i + 1).last() == added);
        let mut at: usize = sorted.len();
        while at > 0 && repository.path.is_before(&sorted[at - 1].path)
            invariant
                at <= sorted.len(),
                before == sorted.deep_view(),
                added == repository.deep_view(),
                order == repository_order(),
                forall|j: int| at <= j < before.len() ==> order(added, #[trigger] before[j]),
            decreases at,
        {
            at -= 1;
        }
        proof {
            lemma_insert_at(before, added, order, at as int);
        }
        sorted.insert(at, repository);
        assert(sorted.deep_view() =~= before.insert(at as int, added));
        i += 1;
    }
    assert(all.take(i as int) =~= all);
    sorted
}

/// Whether a directory of this name is passed over.
pub open spec fn ignored(name: Seq<u8>) -> bool {
    name == encode_utf8(".git"@) || name == encode_utf8(".worktrees"@) || name == encode_utf8(
        ".venv"@,
    ) || name == encode_utf8("node_modules"@) || name == encode_utf8("target"@) || name
        == encode_utf8("build"@) || name == encode_utf8("dist"@) || name == encode_utf8("out"@)
        || name == encode_utf8("coverage"@)
}

/// Whether a directory of this name is passed over.
pub fn ignored_directory(name: &FilePath) -> (result: bool)
    ensures
        result == ignored(name@),
{
    let bytes = name.bytes.as_slice();
    text::bytes_are(bytes, ".git") || text::bytes_are(bytes, ".worktrees") || text::bytes_are(
        bytes,
        ".venv",
    ) || text::bytes_are(bytes, "node_modules") || text::bytes_are(bytes, "target")
        || text::bytes_are(bytes, "build") || text::bytes_are(bytes, "dist") || text::bytes_are(
        bytes,
        "out",
    ) || text::bytes_are(bytes, "coverage")
}

/// The problem with a path that cannot be resolved.
pub open spec fn canonicalization_issue(
    path: Seq<u8>,
    failure: PathFailureView,
    is_root: bool,
) -> DiscoveryIssueView {
    DiscoveryIssueView {
        path,
        kind: if is_root && !(failure.kind is Other) {
            DiscoveryIssueKind::InaccessibleRoot
        } else {
            DiscoveryIssueKind::UnsafeCanonicalization
        },
        message: failure.message,
    }
}

fn new_canonicalization_issue(path: &FilePath, failure: PathFailure, is_root: bool) -> (issue:
    DiscoveryIssue)
    ensures
        issue.deep_view() == canonicalization_issue(path@, failure.deep_view(), is_root),
{
    DiscoveryIssue {
        path: path.clone(),
        kind: if is_root && failure.kind != PathFailureKind::Other {
            DiscoveryIssueKind::InaccessibleRoot
        } else {
            DiscoveryIssueKind::UnsafeCanonicalization
        },
        message: failure.message,
    }
}

/// The problem with a directory that cannot be listed.
pub open spec fn listing_issue(
    path: Seq<u8>,
    message: Seq<char>,
    depth: u32,
) -> DiscoveryIssueView {
    DiscoveryIssueView {
        path,
        kind: if depth == 0 {
            DiscoveryIssueKind::InaccessibleRoot
        } else {
            DiscoveryIssueKind::InaccessibleDirectory
        },
        message,
    }
}

/// A problem with the Git metadata of a directory.
pub open spec fn metadata_issue(path: Seq<u8>, message: Seq<char>) -> DiscoveryIssueView {
    DiscoveryIssueView { path, kind: DiscoveryIssueKind::InvalidGitMetadata, message }
}

/// The command that tells the Git common directory of a repository.
pub open spec fn common_command(repository: Seq<u8>) -> command::CommandLineView {
    command::git_command(
        "git"@,
        Some(repository),
        seq!["rev-parse"@, "--path-format=absolute"@, "--git-common-dir"@],
        true,
        None,
    )
}

fn new_common_command(repository: &FilePath) -> (line: CommandLine)
    ensures
        line.deep_view() == common_command(repository@),
{
    let mut arguments = command::texts2("rev-parse", "--path-format=absolute");
    text::push_text(&mut arguments, "--git-common-dir");
    assert(arguments.deep_view() =~= seq![
        "rev-parse"@,
        "--path-format=absolute"@,
        "--git-common-dir"@,
    ]);
    command::new_git_command("git", Some(repository.clone()), arguments, true, None)
}

/// The Git common directory, as Git printed it.
pub open spec fn printed_directory(result: CommandResultView) -> Result<Seq<u8>, Seq<char>> {
    match result {
        CommandResultView::Failed(error) => Err("failed to run git: "@ + error),
        CommandResultView::TimedOut => Err("failed to run git: command timed out"@),
        CommandResultView::Exited { code, stdout, stderr } => if !command::succeeded(code) {
            Err(
                "git could not resolve the common directory: "@ + text::trimmed(
                    text::lossy_text(stderr),
                ),
            )
        } else {
            match text::utf8_text(stdout) {
                Err(error) => Err("git returned a non-UTF-8 common directory: "@ + error),
                Ok(value) => {
                    let path = encode_utf8(text::trimmed(value));
                    if filepath::absolute(path) {
                        Ok(path)
                    } else {
                        Err(
                            "git returned a non-absolute common directory: "@ + text::lossy_text(
                                path,
                            ),
                        )
                    }
                },
            }
        },
    }
}

/// Reads the Git common directory that Git printed.
pub fn read_directory(result: &CommandResult) -> (path: Result<FilePath, String>)
    ensures
        flow::result_view(path) == printed_directory(result.deep_view()),
{
    match result {
        CommandResult::Failed(error) => Err(text::concat2("failed to run git: ", error.as_str())),
        CommandResult::TimedOut => Err("failed to run git: command timed out".to_owned()),
        CommandResult::Exited { code, stdout, stderr } => {
            if !command::is_success(*code) {
                let message = text::trim(text::lossy(stderr.as_slice()).as_str());
                return Err(
                    text::concat2(
                        "git could not resolve the common directory: ",
                        message.as_str(),
                    ),
                );
            }
            match text::from_utf8(stdout.as_slice()) {
                Err(error) => Err(
                    text::concat2("git returned a non-UTF-8 common directory: ", error.as_str()),
                ),
                Ok(value) => {
                    let path = FilePath::from_text(text::trim(value.as_str()).as_str());
                    if path.is_absolute() {
                        Ok(path)
                    } else {
                        let shown = path.display();
                        Err(
                            text::concat2(
                                "git returned a non-absolute common directory: ",
                                shown.as_str(),
                            ),
                        )
                    }
                },
            }
        },
    }
}

/// The canonical Git common directory of a repository.
pub open spec fn common_flow(repository: Seq<u8>, replies: Seq<ReplyView>, at: int) -> Flow<
    Result<Seq<u8>, Seq<char>>,
> {
    match flow::run_flow(common_command(repository), replies, at) {
        Flow::Ask(request) => Flow::Ask(request),
        Flow::Done(result, next) => match printed_directory(result) {
            Err(message) => Flow::Done(Err(message), next),
            Ok(path) => match flow::canonical_flow(path, replies, next) {
                Flow::Ask(request) => Flow::Ask(request),
                Flow::Done(Ok(canonical), next) => Flow::Done(Ok(canonical), next),
                Flow::Done(Err(failure), next) => Flow::Done(
                    Err(
                        "cannot canonicalize Git common directory "@ + text::lossy_text(path)
                            + ": "@ + failure.message,
                    ),
                    next,
                ),
            },
        },
    }
}

fn git_common_directory(repository: &FilePath, replies: &Vec<Reply>, at: usize) -> (step: Step<
    Result<FilePath, String>,
>)
    ensures
        flow::step_view(step) == common_flow(repository@, replies.deep_view(), at as int),
{
    let (result, next) = match flow::run_step(new_common_command(repository), replies, at) {
        Step::Ask(request) => return Step::Ask(request),
        Step::Done(result, next) => (result, next),
    };
    match read_directory(&result) {
        Err(message) => Step::Done(Err(message), next),
        Ok(path) => match flow::canonical_step(&path, replies, next) {
            Step::Ask(request) => Step::Ask(request),
            Step::Done(Ok(canonical), next) => Step::Done(Ok(canonical), next),
            Step::Done(Err(failure), next) => {
                let shown = path.display();
                Step::Done(
                    Err(
                        text::concat4(
                            "cannot canonicalize Git common directory ",
                            shown.as_str(),
                            ": ",
                            failure.message.as_str(),
                        ),
                    ),
                    next,
                )
            },
        },
    }
}

/// Whether there is a directory, as a reply tells it.
pub open spec fn directory_found(reply: ReplyView) -> Result<bool, Seq<char>> {
    match reply {
        ReplyView::IsDirectory(result) => result,
        _ => Err(command::UNEXPECTED_REPLY@),
    }
}

/// The repository whose main working directory is `path`, where there is something named `.git`;
/// nothing where that is not a directory.
pub open spec fn git_flow(path: Seq<u8>, replies: Seq<ReplyView>, at: int) -> Flow<
    Result<Option<RepositoryView>, DiscoveryIssueView>,
> {
    let git_path = filepath::joined(path, encode_utf8(".git"@));
    if at >= replies.len() {
        Flow::Ask(RequestView::IsDirectory(git_path))
    } else {
        match directory_found(replies[at]) {
            Err(error) => Flow::Done(
                Err(
                    metadata_issue(
                        path,
                        "cannot inspect "@ + text::lossy_text(git_path) + ": "@ + error,
                    ),
                ),
                at + 1,
            ),
            Ok(false) => Flow::Done(Ok(None), at + 1),
            Ok(true) => match common_flow(path, replies, at + 1) {
                Flow::Ask(request) => Flow::Ask(request),
                Flow::Done(Err(message), next) => Flow::Done(
                    Err(metadata_issue(path, message)),
                    next,
                ),
                Flow::Done(Ok(git_common_directory), next) => Flow::Done(
                    Ok(Some(RepositoryView { path, git_common_directory })),
                    next,
                ),
            },
        }
    }
}

fn new_metadata_issue(path: &FilePath, message: String) -> (issue: DiscoveryIssue)
    ensures
        issue.deep_view() == metadata_issue(path@, message@),
{
    DiscoveryIssue { path: path.clone(), kind: DiscoveryIssueKind::InvalidGitMetadata, message }
}

fn inspect_git_directory(path: &FilePath, replies: &Vec<Reply>, at: usize) -> (step: Step<
    Result<Option<Repository>, DiscoveryIssue>,
>)
    ensures
        flow::step_view(step) == git_flow(path@, replies.deep_view(), at as int),
{
    let git_path = path.join_text(".git");
    if at >= replies.len() {
        return Step::Ask(Request::IsDirectory(git_path));
    }
    assert(replies.deep_view()[at as int] == replies[at as int].deep_view());
    let found = match &replies[at] {
        Reply::IsDirectory(Ok(found)) => *found,
        Reply::IsDirectory(Err(error)) => {
            let shown = git_path.display();
            let message = text::concat4("cannot inspect ", shown.as_str(), ": ", error.as_str());
            return Step::Done(Err(new_metadata_issue(path, message)), at + 1);
        },
        _ => {
            let shown = git_path.display();
            let message = text::concat4(
                "cannot inspect ",
                shown.as_str(),
                ": ",
                command::UNEXPECTED_REPLY,
            );
            return Step::Done(Err(new_metadata_issue(path, message)), at + 1);
        },
    };
    if !found {
        return Step::Done(Ok(None), at + 1);
    }
    match git_common_directory(path, replies, at + 1) {
        Step::Ask(request) => Step::Ask(request),
        Step::Done(Err(message), next) => Step::Done(Err(new_metadata_issue(path, message)), next),
        Step::Done(Ok(common), next) => Step::Done(
            Ok(Some(Repository { path: path.clone(), git_common_directory: common })),
            next,
        ),
    }
}

/// What came of a visit to a directory.
#[derive(Debug, PartialEq, Eq)]
pub struct Visit {
    /// The directory, where it was looked at for the first time.
    pub visited: Option<FilePath>,
    /// The repository that it is, if it is one.
    pub repository: Option<Repository>,
    pub issues: Vec<DiscoveryIssue>,
    /// The directories to visit next, one level deeper.
    pub children: Vec<FilePath>,
}

/// The content of a [`Visit`].
pub struct VisitView {
    pub visited: Option<Seq<u8>>,
    pub repository: Option<RepositoryView>,
    pub issues: Seq<DiscoveryIssueView>,
    pub children: Seq<Seq<u8>>,
}

impl DeepView for Visit {
    type V = VisitView;

    open spec fn deep_view(&self) -> VisitView {
        VisitView {
            visited: self.visited.deep_view(),
            repository: self.repository.deep_view(),
            issues: self.issues.deep_view(),
            children: self.children.deep_view(),
        }
    }
}

/// A visit that found nothing but, perhaps, a problem.
pub open spec fn empty_visit(
    visited: Option<Seq<u8>>,
    issues: Seq<DiscoveryIssueView>,
) -> VisitView {
    VisitView { visited, repository: None, issues, children: Seq::empty() }
}

fn new_empty_visit(visited: Option<FilePath>, issue: Option<DiscoveryIssue>) -> (visit: Visit)
    ensures
        visit.deep_view() == empty_visit(
            visited.deep_view(),
            match issue {
                None => Seq::empty(),
                Some(issue) => seq![issue.deep_view()],
            },
        ),
{
    let mut issues: Vec<DiscoveryIssue> = Vec::new();
    assert(issues.deep_view() =~= Seq::empty());
    if let Some(issue) = issue {
        let ghost shown = issue.deep_view();
        issues.push(issue);
        assert(issues.deep_view() =~= seq![shown]);
    }
    let children: Vec<FilePath> = Vec::new();
    assert(children.deep_view() =~= Seq::empty());
    Visit { visited, repository: None, issues, children }
}

/// Whether an entry is named `.git`.
pub open spec fn has_git(entries: Seq<DirectoryEntryView>) -> bool {
    exists|i: int| 0 <= i < entries.len() && (#[trigger] entries[i]).name == encode_utf8(".git"@)
}

fn find_git(entries: &Vec<DirectoryEntry>) -> (found: bool)
    ensures
        found == has_git(entries.deep_view()),
{
    let ghost all = entries.deep_view();
    let mut i: usize = 0;
    while i < entries.len()
        invariant
            i <= entries.len(),
            all == entries.deep_view(),
            forall|j: int| 0 <= j < i ==> (#[trigger] all[j]).name != encode_utf8(".git"@),
        decreases entries.len() - i,
    {
        assert(all[i as int] == entries[i as int].deep_view());
        if text::bytes_are(entries[i].name.bytes.as_slice(), ".git") {
            return true;
        }
        i += 1;
    }
    false
}

/// The directories among the entries that are not passed over.
pub open spec fn child_directories(path: Seq<u8>, entries: Seq<DirectoryEntryView>) -> Seq<Seq<u8>>
    decreases entries.len(),
{
    if entries.len() == 0 {
        Seq::empty()
    } else {
        let before = child_directories(path, entries.drop_last());
        let last = entries.last();
        if !ignored(last.name) && last.kind is Directory {
            before.push(filepath::joined(path, last.name))
        } else {
            before
        }
    }
}

/// The problems with the entries that are not passed over.
pub open spec fn child_issues(path: Seq<u8>, entries: Seq<DirectoryEntryView>) -> Seq<
    DiscoveryIssueView,
>
    decreases entries.len(),
{
    if entries.len() == 0 {
        Seq::empty()
    } else {
        let before = child_issues(path, entries.drop_last());
        match entries.last().kind {
            EntryKindView::Unknown(message) if !ignored(entries.last().name) => before.push(
                DiscoveryIssueView {
                    path: filepath::joined(path, entries.last().name),
                    kind: DiscoveryIssueKind::InaccessibleDirectory,
                    message,
                },
            ),
            _ => before,
        }
    }
}

fn push_issue(issues: &mut Vec<DiscoveryIssue>, issue: DiscoveryIssue)
    ensures
        final(issues).deep_view() == old(issues).deep_view().push(issue.deep_view()),
{
    let ghost before = issues.deep_view();
    let ghost added = issue.deep_view();
    issues.push(issue);
    assert(issues.deep_view() =~= before.push(added));
}

fn find_children(path: &FilePath, entries: &Vec<DirectoryEntry>) -> (found: (
    Vec<FilePath>,
    Vec<DiscoveryIssue>,
))
    ensures
        found.0.deep_view() == child_directories(path@, entries.deep_view()),
        found.1.deep_view() == child_issues(path@, entries.deep_view()),
{
    let ghost all = entries.deep_view();
    let mut children: Vec<FilePath> = Vec::new();
    let mut issues: Vec<DiscoveryIssue> = Vec::new();
    let mut i: usize = 0;
    assert(all.take(0) =~= Seq::empty());
    assert(children.deep_view() =~= Seq::empty());
    assert(issues.deep_view() =~= Seq::empty());
    while i < entries.len()
        invariant
            i <= entries.len(),
            all == entries.deep_view(),
            children.deep_view() == child_directories(path@, all.take(i as int)),
            issues.deep_view() == child_issues(path@, all.take(i as int)),
        decreases entries.len() - i,
    {
        let entry = &entries[i];
        assert(all.take(i + 1).drop_last() =~= all.take(i as int));
        assert(all.take(i + 1).last() == entry.deep_view());
        if !ignored_directory(&entry.name) {
            match &entry.kind {
                EntryKind::Directory => filepath::push_path(&mut children, path.join(&entry.name)),
                EntryKind::Other => {},
                EntryKind::Unknown(message) => push_issue(
                    &mut issues,
                    DiscoveryIssue {
                        path: path.join(&entry.name),
                        kind: DiscoveryIssueKind::InaccessibleDirectory,
                        message: message.clone(),
                    },
                ),
            }
        }
        i += 1;
    }
    assert(all.take(i as int) =~= all);
    (children, issues)
}

/// The entries of a directory, as a reply tells them.
pub open spec fn directory_entries(reply: ReplyView) -> Result<Seq<DirectoryEntryView>, Seq<char>> {
    match reply {
        ReplyView::Directory(result) => result,
        _ => Err(command::UNEXPECTED_REPLY@),
    }
}

/// What the entries of a directory, in order, lead to: the directory may be a repository, and
/// unless it is as deep as the scan goes, directories in it are visited next.
pub open spec fn entries_flow(
    path: Seq<u8>,
    entries: Seq<DirectoryEntryView>,
    depth: u32,
    scan_depth: u32,
    replies: Seq<ReplyView>,
    at: int,
) -> Flow<VisitView> {
    let children = if depth >= scan_depth {
        Seq::empty()
    } else {
        child_directories(path, entries)
    };
    let issues = if depth >= scan_depth {
        Seq::empty()
    } else {
        child_issues(path, entries)
    };
    if !has_git(entries) {
        Flow::Done(
            VisitView { visited: Some(path), repository: None, issues, children },
            at,
        )
    } else {
        match git_flow(path, replies, at) {
            Flow::Ask(request) => Flow::Ask(request),
            Flow::Done(Ok(repository), next) => Flow::Done(
                VisitView { visited: Some(path), repository, issues, children },
                next,
            ),
            Flow::Done(Err(issue), next) => Flow::Done(
                VisitView {
                    visited: Some(path),
                    repository: None,
                    issues: seq![issue] + issues,
                    children,
                },
                next,
            ),
        }
    }
}

/// The visit to the directory at `path`, which is `depth` levels below `root`. It is left alone
/// where it resolves to a place outside the root, or to one that was visited before.
pub open spec fn visit_flow(
    root: Seq<u8>,
    path: Seq<u8>,
    depth: u32,
    scan_depth: u32,
    visited: Seq<Seq<Seq<u8>>>,
    replies: Seq<ReplyView>,
    at: int,
) -> Flow<VisitView> {
    match flow::canonical_flow(path, replies, at) {
        Flow::Ask(request) => Flow::Ask(request),
        Flow::Done(Err(failure), next) => Flow::Done(
            empty_visit(None, seq![canonicalization_issue(path, failure, depth == 0)]),
            next,
        ),
        Flow::Done(Ok(canonical), next) => if !filepath::path_within(canonical, root) {
            Flow::Done(
                empty_visit(
                    None,
                    seq![
                        DiscoveryIssueView {
                            path: canonical,
                            kind: DiscoveryIssueKind::UnsafeCanonicalization,
                            message: "directory reached from "@ + text::lossy_text(path)
                                + " resolves outside configured root "@ + text::lossy_text(root),
                        },
                    ],
                ),
                next,
            )
        } else if visited.contains(filepath::components(canonical)) {
            Flow::Done(empty_visit(None, Seq::empty()), next)
        } else if next >= replies.len() {
            Flow::Ask(RequestView::ListDirectory(canonical))
        } else {
            match directory_entries(replies[next]) {
                Err(message) => Flow::Done(
                    empty_visit(Some(canonical), seq![listing_issue(canonical, message, depth)]),
                    next + 1,
                ),
                Ok(entries) => entries_flow(
                    canonical,
                    sort_by(entries, entry_order()),
                    depth,
                    scan_depth,
                    replies,
                    next + 1,
                ),
            }
        },
    }
}

fn visit_entries(
    path: &FilePath,
    entries: &Vec<DirectoryEntry>,
    depth: u32,
    scan_depth: u32,
    replies: &Vec<Reply>,
    at: usize,
) -> (step: Step<Visit>)
    ensures
        step.deep_view() == entries_flow(
            path@,
            entries.deep_view(),
            depth,
            scan_depth,
            replies.deep_view(),
            at as int,
        ),
{
    let mut repository: Option<Repository> = None;
    let mut issues: Vec<DiscoveryIssue> = Vec::new();
    assert(issues.deep_view() =~= Seq::empty());
    let mut position: usize = at;
    if find_git(entries) {
        match inspect_git_directory(path, replies, at) {
            Step::Ask(request) => return Step::Ask(request),
            Step::Done(Ok(found), next) => {
                repository = found;
                position = next;
            },
            Step::Done(Err(issue), next) => {
                push_issue(&mut issues, issue);
                position = next;
            },
        }
    }
    let ghost first = issues.deep_view();
    let mut children: Vec<FilePath> = Vec::new();
    assert(children.deep_view() =~= Seq::empty());
    if depth < scan_depth {
        let (found, more) = find_children(path, entries);
        children = found;
        append_issues(&mut issues, &more);
    } else {
        assert(first + Seq::empty() =~= first);
    }
    proof {
        let others = if depth >= scan_depth {
            Seq::empty()
        } else {
            child_issues(path@, entries.deep_view())
        };
        assert(issues.deep_view() =~= first + others);
        assert(Seq::<DiscoveryIssueView>::empty() + others =~= others);
    }
    Step::Done(Visit { visited: Some(path.clone()), repository, issues, children }, position)
}

fn append_issues(issues: &mut Vec<DiscoveryIssue>, more: &Vec<DiscoveryIssue>)
    ensures
        final(issues).deep_view() == old(issues).deep_view() + more.deep_view(),
{
    let ghost start = issues.deep_view();
    let ghost all = more.deep_view();
    let mut i: usize = 0;
    assert(start + all.take(0) =~= start);
    while i < more.len()
        invariant
            i <= more.len(),
            all == more.deep_view(),
            issues.deep_view() == start + all.take(i as int),
        decreases more.len() - i,
    {
        push_issue(issues, more[i].clone());
        assert(all.take(i + 1) =~= all.take(i as int).push(all[i as int]));
        assert(issues.deep_view() =~= start + all.take(i + 1));
        i += 1;
    }
    assert(all.take(i as int) =~= all);
}

fn visit(
    root: &FilePath,
    path: &FilePath,
    depth: u32,
    scan_depth: u32,
    visited: &Vec<Parts>,
    replies: &Vec<Reply>,
    at: usize,
) -> (step: Step<Visit>)
    ensures
        step.deep_view() == visit_flow(
            root@,
            path@,
            depth,
            scan_depth,
            visited.deep_view(),
            replies.deep_view(),
            at as int,
        ),
{
    let (canonical, next) = match flow::canonical_step(path, replies, at) {
        Step::Ask(request) => return Step::Ask(request),
        Step::Done(Err(failure), next) => return Step::Done(
            new_empty_visit(
                None,
                Some(new_canonicalization_issue(path, failure, depth == 0)),
            ),
            next,
        ),
        Step::Done(Ok(canonical), next) => (canonical, next),
    };
    if !canonical.is_within(root) {
        let from = path.display();
        let limit = root.display();
        let message = text::concat4(
            "directory reached from ",
            from.as_str(),
            " resolves outside configured root ",
            limit.as_str(),
        );
        let issue = DiscoveryIssue {
            path: canonical,
            kind: DiscoveryIssueKind::UnsafeCanonicalization,
            message,
        };
        return Step::Done(new_empty_visit(None, Some(issue)), next);
    }
    if filepath::contains_parts(visited, &Parts::of(&canonical)) {
        return Step::Done(new_empty_visit(None, None), next);
    }
    if next >= replies.len() {
        return Step::Ask(Request::ListDirectory(canonical));
    }
    assert(replies.deep_view()[next as int] == replies[next as int].deep_view());
    let kind = if depth == 0 {
        DiscoveryIssueKind::InaccessibleRoot
    } else {
        DiscoveryIssueKind::InaccessibleDirectory
    };
    match &replies[next] {
        Reply::Directory(Ok(entries)) => {
            let sorted = sort_entries(entries);
            visit_entries(&canonical, &sorted, depth, scan_depth, replies, next + 1)
        },
        Reply::Directory(Err(message)) => {
            let issue = DiscoveryIssue { path: canonical.clone(), kind, message: message.clone() };
            Step::Done(new_empty_visit(Some(canonical), Some(issue)), next + 1)
        },
        _ => {
            let message = command::UNEXPECTED_REPLY.to_owned();
            let issue = DiscoveryIssue { path: canonical.clone(), kind, message };
            Step::Done(new_empty_visit(Some(canonical), Some(issue)), next + 1)
        },
    }
}

/// The repositories, which are in the order of their Git common directories, together with one
/// more. Of two with the same common directory, the one whose path comes first is kept.
pub open spec fn keep_repository(
    repositories: Seq<RepositoryView>,
    found: RepositoryView,
) -> Seq<RepositoryView>
    decreases repositories.len(),
{
    if repositories.len() == 0 {
        seq![found]
    } else {
        let last = repositories.last();
        if filepath::same_path(last.git_common_directory, found.git_common_directory) {
            if filepath::path_before(found.path, last.path) {
                repositories.drop_last().push(RepositoryView { path: found.path, ..last })
            } else {
                repositories
            }
        } else if filepath::path_before(last.git_common_directory, found.git_common_directory) {
            repositories.push(found)
        } else {
            keep_repository(repositories.drop_last(), found).push(last)
        }
    }
}

fn push_repository(repositories: &mut Vec<Repository>, repository: Repository)
    ensures
        final(repositories).deep_view() == old(repositories).deep_view().push(
            repository.deep_view(),
        ),
{
    let ghost before = repositories.deep_view();
    let ghost added = repository.deep_view();
    repositories.push(repository);
    assert(repositories.deep_view() =~= before.push(added));
}

fn insert_repository(repositories: Vec<Repository>, found: Repository) -> (kept: Vec<Repository>)
    ensures
        kept.deep_view() == keep_repository(repositories.deep_view(), found.deep_view()),
    decreases repositories.len(),
{
    let ghost all = repositories.deep_view();
    let mut rest = repositories;
    match rest.pop() {
        None => {
            assert(rest.deep_view() =~= Seq::empty());
            push_repository(&mut rest, found);
            assert(rest.deep_view() =~= seq![found.deep_view()]);
            rest
        },
        Some(last) => {
            assert(rest.deep_view() =~= all.drop_last());
            assert(last.deep_view() == all.last());
            if last.git_common_directory.same_as(&found.git_common_directory) {
                if found.path.is_before(&last.path) {
                    push_repository(
                        &mut rest,
                        Repository {
                            path: found.path,
                            git_common_directory: last.git_common_directory,
                        },
                    );
                    rest
                } else {
                    push_repository(&mut rest, last);
                    assert(rest.deep_view() =~= all);
                    rest
                }
            } else if last.git_common_directory.is_before(&found.git_common_directory) {
                push_repository(&mut rest, last);
                assert(rest.deep_view() =~= all);
                push_repository(&mut rest, found);
                rest
            } else {
                let mut kept = insert_repository(rest, found);
                push_repository(&mut kept, last);
                kept
            }
        },
    }
}

/// A directory to visit, and how deep it is below its root.
#[derive(Debug, PartialEq, Eq)]
pub struct PendingDirectory {
    pub path: FilePath,
    pub depth: u32,
}

/// The content of a [`PendingDirectory`].
pub struct PendingDirectoryView {
    pub path: Seq<u8>,
    pub depth: u32,
}

impl DeepView for PendingDirectory {
    type V = PendingDirectoryView;

    open spec fn deep_view(&self) -> PendingDirectoryView {
        PendingDirectoryView {
            path: self.path@,
            depth: self.depth,
        }
    }
}

/// The walk below one root.
#[derive(Debug, PartialEq, Eq)]
pub struct Walk {
    pub root: FilePath,
    /// The directories that were or are to be visited, in order.
    pub pending: Vec<PendingDirectory>,
    /// The number of the one that is being visited.
    pub next: usize,
    /// The components of the canonical paths that were visited.
    pub visited: Vec<Parts>,
}

/// The content of a [`Walk`].
pub struct WalkView {
    pub root: Seq<u8>,
    pub pending: Seq<PendingDirectoryView>,
    pub next: nat,
    pub visited: Seq<Seq<Seq<u8>>>,
}

impl DeepView for Walk {
    type V = WalkView;

    open spec fn deep_view(&self) -> WalkView {
        WalkView {
            root: self.root@,
            pending: self.pending.deep_view(),
            next: self.next as nat,
            visited: self.visited.deep_view(),
        }
    }
}

/// The search for repositories.
#[derive(Debug, PartialEq, Eq)]
pub struct Discoverer {
    pub roots: Vec<FilePath>,
    pub scan_depth: u32,
    /// The number of the root that comes next.
    pub next_root: usize,
    /// The components of the canonical roots that were walked.
    pub seen_roots: Vec<Parts>,
    pub walk: Option<Walk>,
    /// What was found, in the order of the Git common directories.
    pub repositories: Vec<Repository>,
    pub issues: Vec<DiscoveryIssue>,
    /// The replies about the directory that is being visited.
    pub replies: Vec<Reply>,
}

/// The content of a [`Discoverer`].
pub struct DiscovererView {
    pub roots: Seq<Seq<u8>>,
    pub scan_depth: u32,
    pub next_root: nat,
    pub seen_roots: Seq<Seq<Seq<u8>>>,
    pub walk: Option<WalkView>,
    pub repositories: Seq<RepositoryView>,
    pub issues: Seq<DiscoveryIssueView>,
    pub replies: Seq<ReplyView>,
}

impl DeepView for Discoverer {
    type V = DiscovererView;

    open spec fn deep_view(&self) -> DiscovererView {
        DiscovererView {
            roots: self.roots.deep_view(),
            scan_depth: self.scan_depth,
            next_root: self.next_root as nat,
            seen_roots: self.seen_roots.deep_view(),
            walk: self.walk.deep_view(),
            repositories: self.repositories.deep_view(),
            issues: self.issues.deep_view(),
            replies: self.replies.deep_view(),
        }
    }
}

/// A search that has not started.
pub open spec fn new_search(roots: Seq<Seq<u8>>, scan_depth: u32) -> DiscovererView {
    DiscovererView {
        roots,
        scan_depth,
        next_root: 0,
        seen_roots: Seq::empty(),
        walk: None,
        repositories: Seq::empty(),
        issues: Seq::empty(),
        replies: Seq::empty(),
    }
}

/// The visit that a walk is at.
pub open spec fn current_visit(
    search: DiscovererView,
    walk: WalkView,
    replies: Seq<ReplyView>,
) -> Flow<
    VisitView,
> {
    let current = walk.pending[walk.next as int];
    visit_flow(
        walk.root,
        current.path,
        current.depth,
        search.scan_depth,
        walk.visited,
        replies,
        0,
    )
}

/// What the search asks for; nothing once it is over.
pub open spec fn search_request(search: DiscovererView) -> Option<RequestView> {
    match search.walk {
        Some(walk) => if walk.next < walk.pending.len() {
            match current_visit(search, walk, search.replies) {
                Flow::Ask(request) => Some(request),
                Flow::Done(_, _) => None,
            }
        } else {
            None
        },
        None => if search.next_root < search.roots.len() {
            Some(RequestView::Canonicalize(search.roots[search.next_root as int]))
        } else {
            None
        },
    }
}

/// One level deeper.
pub open spec fn deeper(depth: u32) -> u32 {
    if depth < u32::MAX {
        (depth + 1) as u32
    } else {
        depth
    }
}

/// The directories to visit, with the children of the current one behind them.
pub open spec fn with_children(
    pending: Seq<PendingDirectoryView>,
    children: Seq<Seq<u8>>,
    depth: u32,
) -> Seq<PendingDirectoryView> {
    pending + Seq::new(children.len(), |i: int| PendingDirectoryView { path: children[i], depth })
}

/// A walk after the visit to the directory whose turn it was: on to the next one, with the
/// directories in it at the end of the queue.
pub open spec fn step_walk(walk: WalkView, visit: VisitView) -> WalkView {
    WalkView {
        pending: with_children(
            walk.pending,
            visit.children,
            deeper(walk.pending[walk.next as int].depth),
        ),
        next: walk.next + 1,
        visited: match visit.visited {
            None => walk.visited,
            Some(path) => walk.visited.push(filepath::components(path)),
        },
        ..walk
    }
}

/// The search after a visit; the walk is over where no directory is left.
pub open spec fn after_visit(
    search: DiscovererView,
    walk: WalkView,
    visit: VisitView,
) -> DiscovererView {
    let stepped = step_walk(walk, visit);
    DiscovererView {
        walk: if stepped.next < stepped.pending.len() {
            Some(stepped)
        } else {
            None
        },
        repositories: match visit.repository {
            None => search.repositories,
            Some(found) => keep_repository(search.repositories, found),
        },
        issues: search.issues + visit.issues,
        replies: Seq::empty(),
        ..search
    }
}

/// The search after a reply.
pub open spec fn search_advance(search: DiscovererView, reply: ReplyView) -> DiscovererView {
    match search.walk {
        Some(walk) => if walk.next < walk.pending.len() {
            let replies = search.replies.push(reply);
            match current_visit(search, walk, replies) {
                Flow::Ask(_) => DiscovererView { replies, ..search },
                Flow::Done(visit, _) => after_visit(search, walk, visit),
            }
        } else {
            search
        },
        None => if search.next_root < search.roots.len() {
            let next = DiscovererView { next_root: search.next_root + 1, ..search };
            match command::canonical_path(reply) {
                Err(failure) => DiscovererView {
                    issues: search.issues.push(
                        canonicalization_issue(
                            search.roots[search.next_root as int],
                            failure,
                            true,
                        ),
                    ),
                    ..next
                },
                Ok(root) => if search.seen_roots.contains(filepath::components(root)) {
                    next
                } else {
                    DiscovererView {
                        seen_roots: search.seen_roots.push(filepath::components(root)),
                        walk: Some(
                            WalkView {
                                root,
                                pending: seq![PendingDirectoryView { path: root, depth: 0 }],
                                next: 0,
                                visited: Seq::empty(),
                            },
                        ),
                        ..next
                    }
                },
            }
        } else {
            search
        },
    }
}

/// What the search has found: repositories in the order of their paths, and all problems.
pub open spec fn search_result(search: DiscovererView) -> DiscoveryView {
    DiscoveryView {
        repositories: sort_by(search.repositories, repository_order()),
        issues: search.issues,
    }
}

/// Finds main Git repositories beneath configured roots.
///
/// Repository paths and Git common directories are canonicalized. Repositories are deduplicated
/// by common directory, while failures are retained so callers can report every operational
/// problem.
pub fn discover(roots: &Vec<FilePath>, scan_depth: u32) -> (search: Discoverer)
    ensures
        search.deep_view() == new_search(roots.deep_view(), scan_depth),
{
    let search = Discoverer {
        roots: filepath::clone_paths(roots),
        scan_depth,
        next_root: 0,
        seen_roots: Vec::new(),
        walk: None,
        repositories: Vec::new(),
        issues: Vec::new(),
        replies: Vec::new(),
    };
    assert(search.seen_roots.deep_view() =~= Seq::empty());
    assert(search.repositories.deep_view() =~= Seq::empty());
    assert(search.issues.deep_view() =~= Seq::empty());
    assert(search.replies.deep_view() =~= Seq::empty());
    search
}

/// Appends a reply.
pub fn push_reply(replies: &mut Vec<Reply>, reply: Reply)
    ensures
        final(replies).deep_view() == old(replies).deep_view().push(reply.deep_view()),
{
    let ghost before = replies.deep_view();
    let ghost added = reply.deep_view();
    replies.push(reply);
    assert(replies.deep_view() =~= before.push(added));
}

impl Discoverer {
    /// What the search asks for; nothing once it is over.
    pub fn request(&self) -> (request: Option<Request>)
        ensures
            request.deep_view() == search_request(self.deep_view()),
    {
        match &self.walk {
            Some(walk) => {
                if walk.next >= walk.pending.len() {
                    return None;
                }
                let current = &walk.pending[walk.next];
                assert(walk.pending.deep_view()[walk.next as int] == current.deep_view());
                match visit(
                    &walk.root,
                    &current.path,
                    current.depth,
                    self.scan_depth,
                    &walk.visited,
                    &self.replies,
                    0,
                ) {
                    Step::Ask(request) => Some(request),
                    Step::Done(_, _) => None,
                }
            },
            None => {
                if self.next_root >= self.roots.len() {
                    return None;
                }
                assert(self.roots.deep_view()[self.next_root as int]
                    == self.roots[self.next_root as int]@);
                Some(Request::Canonicalize(self.roots[self.next_root].clone()))
            },
        }
    }

    fn start_root(self, reply: Reply) -> (search: Discoverer)
        requires
            self.walk is None,
            self.next_root < self.roots.len(),
        ensures
            search.deep_view() == search_advance(self.deep_view(), reply.deep_view()),
    {
        let mut search = self;
        let ghost issues = search.issues.deep_view();
        let ghost seen = search.seen_roots.deep_view();
        let ghost roots = search.roots.deep_view();
        let index = search.next_root;
        search.next_root = index + 1;
        match reply.canonical_path() {
            Err(failure) => {
                assert(roots[index as int] == search.roots[index as int]@);
                let issue = new_canonicalization_issue(&search.roots[index], failure, true);
                push_issue(&mut search.issues, issue);
            },
            Ok(root) => {
                let parts = Parts::of(&root);
                if !filepath::contains_parts(&search.seen_roots, &parts) {
                    search.seen_roots.push(parts);
                    assert(search.seen_roots.deep_view() =~= seen.push(parts.deep_view()));
                    let mut pending: Vec<PendingDirectory> = Vec::new();
                    pending.push(PendingDirectory { path: root.clone(), depth: 0 });
                    assert(pending.deep_view() =~= seq![
                        PendingDirectoryView { path: root@, depth: 0 },
                    ]);
                    let visited: Vec<Parts> = Vec::new();
                    assert(visited.deep_view() =~= Seq::empty());
                    search.walk = Some(Walk { root, pending, next: 0, visited });
                }
            },
        }
        search
    }

    /// The search after a reply to its request.
    pub fn advance(self, reply: Reply) -> (search: Discoverer)
        ensures
            search.deep_view() == search_advance(self.deep_view(), reply.deep_view()),
    {
        let mut search = self;
        match search.walk.take() {
            None => if search.next_root < search.roots.len() {
                search.start_root(reply)
            } else {
                search
            },
            Some(walk) => {
                if walk.next >= walk.pending.len() {
                    search.walk = Some(walk);
                    return search;
                }
                push_reply(&mut search.replies, reply);
                let current = &walk.pending[walk.next];
                let depth = current.depth;
                assert(walk.pending.deep_view()[walk.next as int] == current.deep_view());
                match visit(
                    &walk.root,
                    &current.path,
                    depth,
                    search.scan_depth,
                    &walk.visited,
                    &search.replies,
                    0,
                ) {
                    Step::Ask(_) => {
                        search.walk = Some(walk);
                        search
                    },
                    Step::Done(visit, _) => search.leave(walk, visit),
                }
            },
        }
    }

    fn leave(self, walk: Walk, visit: Visit) -> (search: Discoverer)
        requires
            walk.next < walk.pending.len(),
        ensures
            search.deep_view() == after_visit(
                self.deep_view(),
                walk.deep_view(),
                visit.deep_view(),
            ),
    {
        let mut search = self;
        let depth = walk.pending[walk.next].depth;
        assert(walk.pending.deep_view()[walk.next as int].depth == depth);
        let child_depth: u32 = if depth < u32::MAX {
            depth + 1
        } else {
            depth
        };
        let Visit { visited: place, repository, issues, children } = visit;
        append_issues(&mut search.issues, &issues);
        match repository {
            None => {},
            Some(found) => {
                search.repositories = insert_repository(search.repositories, found);
            },
        }
        search.replies = Vec::new();
        assert(search.replies.deep_view() =~= Seq::empty());
        let Walk { root, pending: held, next, visited: seen } = walk;
        let mut pending = held;
        let ghost start = pending.deep_view();
        let ghost all = children.deep_view();
        let ghost goal = with_children(start, all, child_depth);
        let mut i: usize = 0;
        assert(pending.deep_view() =~= goal.take(start.len() as int));
        while i < children.len()
            invariant
                i <= children.len(),
                all == children.deep_view(),
                goal == with_children(start, all, child_depth),
                pending.deep_view() == goal.take(start.len() + i),
            decreases children.len() - i,
        {
            let ghost before = pending.deep_view();
            let child = PendingDirectory { path: children[i].clone(), depth: child_depth };
            let ghost added = child.deep_view();
            pending.push(child);
            assert(added.path == all[i as int]);
            assert(added == goal[start.len() + i]);
            assert(pending.deep_view() =~= before.push(added));
            assert(goal.take(start.len() + i + 1) =~= goal.take(start.len() + i).push(
                goal[start.len() + i],
            ));
            i += 1;
        }
        assert(goal.take(start.len() + i) =~= goal);
        if next + 1 < pending.len() {
            let mut visited = seen;
            let ghost before = visited.deep_view();
            if let Some(path) = place {
                let parts = Parts::of(&path);
                let ghost added = parts.deep_view();
                visited.push(parts);
                assert(visited.deep_view() =~= before.push(added));
            }
            search.walk = Some(Walk { root, pending, next: next + 1, visited });
        } else {
            search.walk = None;
        }
        search
    }

    /// What the search has found.
    pub fn finish(self) -> (discovery: Discovery)
        ensures
            discovery.deep_view() == search_result(self.deep_view()),
    {
        Discovery { repositories: sort_repositories(&self.repositories), issues: self.issues }
    }
}

} // verus!
