//! Proofs that a branch adds nothing to the default branch, as Worktrunk gives them.
pub mod model;

use crate::command;
use crate::command::{CommandLine, CommandResult, CommandResultView};
use crate::command::{Reply, ReplyView, Request, RequestView};
use crate::filepath;
use crate::filepath::FilePath;
use crate::flow;
use crate::flow::{Flow, Step};
use crate::inspection;
use crate::inspection::{RepositoryInspection, RepositoryInspectionOutcome, RepositoryInspectionView};
use crate::inspection::{WorktreeClassification, WorktreeInspection, WorktreeInspectionView};
use crate::text;
use vstd::prelude::*;

verus! {

/// The layout of Worktrunk's list that is understood.
pub const REQUIRED_SCHEMA: u32 = 2;

/// Why a branch adds nothing.
#[derive(Debug, Clone, Copy, PartialEq, Eq, Structural)]
pub enum IntegrationReason {
    SameCommit,
    Ancestor,
    NoAddedChanges,
    TreesMatch,
    MergeAddsNothing,
    PatchIdMatch,
}

impl DeepView for IntegrationReason {
    type V = IntegrationReason;

    open spec fn deep_view(&self) -> IntegrationReason {
        *self
    }
}

/// What Worktrunk's list proves of a candidate.
#[derive(Debug, Clone, Copy, PartialEq, Eq, Structural)]
pub enum IntegrationProof {
    Integrated(IntegrationReason),
    NotIntegrated,
    Indeterminate,
    DefaultBranchUnresolved,
}

impl DeepView for IntegrationProof {
    type V = IntegrationProof;

    open spec fn deep_view(&self) -> IntegrationProof {
        *self
    }
}

/// A worktree whose integration is to be proved.
#[derive(Debug, PartialEq, Eq)]
pub struct IntegrationCandidate {
    pub path: FilePath,
    pub branch: String,
    pub head: String,
}

/// The content of a [`IntegrationCandidate`].
pub struct IntegrationCandidateView {
    pub path: Seq<u8>,
    pub branch: Seq<char>,
    pub head: Seq<char>,
}

impl DeepView for IntegrationCandidate {
    type V = IntegrationCandidateView;

    open spec fn deep_view(&self) -> IntegrationCandidateView {
        IntegrationCandidateView {
            path: self.path@,
            branch: self.branch@,
            head: self.head@,
        }
    }
}

/// The integration of a branch, as a row of the list has it.
#[derive(Debug, Clone, Copy, PartialEq, Eq, Structural)]
pub enum IntegrationPresence {
    Missing,
    Null,
    Value(IntegrationReason),
}

impl DeepView for IntegrationPresence {
    type V = IntegrationPresence;

    open spec fn deep_view(&self) -> IntegrationPresence {
        *self
    }
}

/// The relation of a branch to the default branch, as a row of the list has it.
#[derive(Debug, Clone, Copy, PartialEq, Eq, Structural)]
pub enum RelationPresence {
    Missing,
    Null,
    Value(IntegrationPresence),
}

impl DeepView for RelationPresence {
    type V = RelationPresence;

    open spec fn deep_view(&self) -> RelationPresence {
        *self
    }
}

/// One row of Worktrunk's list.
#[derive(Debug, PartialEq, Eq)]
pub struct ListItem {
    pub branch: Option<String>,
    /// The commit of the branch.
    pub head: Option<String>,
    /// The path of the worktree.
    pub worktree: Option<FilePath>,
    pub default_branch: RelationPresence,
}

/// The content of a [`ListItem`].
pub struct ListItemView {
    pub branch: Option<Seq<char>>,
    pub head: Option<Seq<char>>,
    pub worktree: Option<Seq<u8>>,
    pub default_branch: RelationPresence,
}

impl DeepView for ListItem {
    type V = ListItemView;

    open spec fn deep_view(&self) -> ListItemView {
        ListItemView {
            branch: self.branch.deep_view(),
            head: self.head.deep_view(),
            worktree: self.worktree.deep_view(),
            default_branch: self.default_branch,
        }
    }
}

/// Worktrunk's list.
#[derive(Debug, PartialEq, Eq)]
pub struct ListEnvelope {
    pub schema: u32,
    pub default_branch: Option<String>,
    pub items: Vec<ListItem>,
}

/// The content of a [`ListEnvelope`].
pub struct ListEnvelopeView {
    pub schema: u32,
    pub default_branch: Option<Seq<char>>,
    pub items: Seq<ListItemView>,
}

impl DeepView for ListEnvelope {
    type V = ListEnvelopeView;

    open spec fn deep_view(&self) -> ListEnvelopeView {
        ListEnvelopeView {
            schema: self.schema,
            default_branch: self.default_branch.deep_view(),
            items: self.items.deep_view(),
        }
    }
}

/// Why nothing can be proved.
#[derive(Debug, PartialEq, Eq)]
pub enum AdapterError {
    Unavailable(String),
    TimedOut,
    VersionCommand(String),
    IncompatibleVersion { found: String, minimum: String },
    MalformedVersion(String),
    ListCommand(String),
    MalformedJson(String),
    IncompatibleSchema(u32),
    MalformedResult(String),
}

/// The content of a [`AdapterError`].
pub enum AdapterErrorView {
    Unavailable(Seq<char>),
    TimedOut,
    VersionCommand(Seq<char>),
    IncompatibleVersion { found: Seq<char>, minimum: Seq<char> },
    MalformedVersion(Seq<char>),
    ListCommand(Seq<char>),
    MalformedJson(Seq<char>),
    IncompatibleSchema(u32),
    MalformedResult(Seq<char>),
}

impl DeepView for AdapterError {
    type V = AdapterErrorView;

    open spec fn deep_view(&self) -> AdapterErrorView {
        match self {
            AdapterError::Unavailable(value) => AdapterErrorView::Unavailable(value@),
            AdapterError::TimedOut => AdapterErrorView::TimedOut,
            AdapterError::VersionCommand(value) => AdapterErrorView::VersionCommand(value@),
            AdapterError::IncompatibleVersion {
                found,
                minimum,
            } => AdapterErrorView::IncompatibleVersion {
                found: found@,
                minimum: minimum@,
            },
            AdapterError::MalformedVersion(value) => AdapterErrorView::MalformedVersion(value@),
            AdapterError::ListCommand(value) => AdapterErrorView::ListCommand(value@),
            AdapterError::MalformedJson(value) => AdapterErrorView::MalformedJson(value@),
            AdapterError::IncompatibleSchema(value) => AdapterErrorView::IncompatibleSchema(*value),
            AdapterError::MalformedResult(value) => AdapterErrorView::MalformedResult(value@),
        }
    }
}

/// The message of an error.
pub open spec fn adapter_message(error: AdapterErrorView) -> Seq<char> {
    match error {
        AdapterErrorView::Unavailable(message) => "Worktrunk is unavailable: "@ + message,
        AdapterErrorView::TimedOut => "Worktrunk command timed out"@,
        AdapterErrorView::VersionCommand(message) => "Worktrunk version command failed: "@
            + message,
        AdapterErrorView::IncompatibleVersion { found, minimum } => {
            "incompatible Worktrunk version "@ + found + "; version "@ + minimum
                + " or newer is required"@
        },
        AdapterErrorView::MalformedVersion(output) => "malformed Worktrunk version output: "@
            + text::quoted_text(output),
        AdapterErrorView::ListCommand(message) => "Worktrunk list command failed: "@ + message,
        AdapterErrorView::MalformedJson(message) => "malformed Worktrunk JSON: "@ + message,
        AdapterErrorView::IncompatibleSchema(schema) => "incompatible Worktrunk JSON schema "@
            + text::decimal_text(schema as nat) + "; schema 2 is required"@,
        AdapterErrorView::MalformedResult(message) => "malformed Worktrunk result: "@ + message,
    }
}

impl AdapterError {
    /// The message of the error.
    pub fn message(&self) -> (message: String)
        ensures
            message@ == adapter_message(self.deep_view()),
    {
        match self {
            AdapterError::Unavailable(message) => text::concat2(
                "Worktrunk is unavailable: ",
                message.as_str(),
            ),
            AdapterError::TimedOut => "Worktrunk command timed out".to_owned(),
            AdapterError::VersionCommand(message) => text::concat2(
                "Worktrunk version command failed: ",
                message.as_str(),
            ),
            AdapterError::IncompatibleVersion { found, minimum } => text::concat5(
                "incompatible Worktrunk version ",
                found.as_str(),
                "; version ",
                minimum.as_str(),
                " or newer is required",
            ),
            AdapterError::MalformedVersion(output) => {
                let shown = text::quoted(output.as_str());
                text::concat2("malformed Worktrunk version output: ", shown.as_str())
            },
            AdapterError::ListCommand(message) => text::concat2(
                "Worktrunk list command failed: ",
                message.as_str(),
            ),
            AdapterError::MalformedJson(message) => text::concat2(
                "malformed Worktrunk JSON: ",
                message.as_str(),
            ),
            AdapterError::IncompatibleSchema(schema) => {
                let number = text::decimal(*schema as u64);
                text::concat3(
                    "incompatible Worktrunk JSON schema ",
                    number.as_str(),
                    "; schema 2 is required",
                )
            },
            AdapterError::MalformedResult(message) => text::concat2(
                "malformed Worktrunk result: ",
                message.as_str(),
            ),
        }
    }
}

/// The version of a program.
#[derive(Debug, Clone, Copy, PartialEq, Eq, Structural)]
pub struct Version {
    pub major: u64,
    pub minor: u64,
    pub patch: u64,
}

impl DeepView for Version {
    type V = Version;

    open spec fn deep_view(&self) -> Version {
        *self
    }
}

/// The oldest version of Worktrunk that is relied on.
pub open spec fn minimum_version() -> Version {
    Version { major: 0, minor: 66, patch: 0 }
}

/// Whether `left` is older than `right`.
pub open spec fn older(left: Version, right: Version) -> bool {
    left.major < right.major || (left.major == right.major && (left.minor < right.minor || (
    left.minor == right.minor && left.patch < right.patch)))
}

/// A version as text.
pub open spec fn version_text(version: Version) -> Seq<char> {
    text::decimal_text(version.major as nat) + "."@ + text::decimal_text(version.minor as nat)
        + "."@ + text::decimal_text(version.patch as nat)
}

/// The version that a text names: three numbers with dots between them, and perhaps something
/// behind a hyphen.
pub open spec fn parse_version(value: Seq<char>) -> Option<Version> {
    let parts = text::split_text(text::split_text(value, '-')[0], '.');
    if parts.len() != 3 {
        None
    } else {
        match (
            text::parse_unsigned(parts[0], u64::MAX as nat),
            text::parse_unsigned(parts[1], u64::MAX as nat),
            text::parse_unsigned(parts[2], u64::MAX as nat),
        ) {
            (Some(major), Some(minor), Some(patch)) => Some(
                Version { major: major as u64, minor: minor as u64, patch: patch as u64 },
            ),
            _ => None,
        }
    }
}

impl Version {
    /// The version that a text names.
    pub fn parse(value: &str) -> (version: Option<Version>)
        ensures
            version == parse_version(value@),
    {
        let pieces = text::split(value, '-');
        let core = &pieces[0];
        assert(pieces.deep_view()[0] == core@);
        let parts = text::split(core.as_str(), '.');
        if parts.len() != 3 {
            return None;
        }
        assert(parts.deep_view()[0] == parts[0]@);
        assert(parts.deep_view()[1] == parts[1]@);
        assert(parts.deep_view()[2] == parts[2]@);
        match (
            text::parse_number(parts[0].as_str(), u64::MAX),
            text::parse_number(parts[1].as_str(), u64::MAX),
            text::parse_number(parts[2].as_str(), u64::MAX),
        ) {
            (Some(major), Some(minor), Some(patch)) => Some(Version { major, minor, patch }),
            _ => None,
        }
    }

    /// The version as text.
    pub fn display(self) -> (text: String)
        ensures
            text@ == version_text(self),
    {
        let major = text::decimal(self.major);
        let minor = text::decimal(self.minor);
        let patch = text::decimal(self.patch);
        text::concat5(major.as_str(), ".", minor.as_str(), ".", patch.as_str())
    }

    /// Whether the version is older than `other`.
    pub fn is_older(self, other: Version) -> (result: bool)
        ensures
            result == older(self, other),
    {
        self.major < other.major || (self.major == other.major && (self.minor < other.minor || (
        self.minor == other.minor && self.patch < other.patch)))
    }
}

/// Why a command of Worktrunk told nothing.
pub open spec fn unavailable(result: CommandResultView) -> AdapterErrorView {
    match result {
        CommandResultView::Failed(error) => AdapterErrorView::Unavailable(error),
        _ => AdapterErrorView::TimedOut,
    }
}

/// What the output of Worktrunk's version command has against relying on it.
pub open spec fn version_error(result: CommandResultView) -> Option<AdapterErrorView> {
    match result {
        CommandResultView::Exited { code, stdout, stderr } => if !command::succeeded(code) {
            Some(AdapterErrorView::VersionCommand(flow::stderr_text(stderr)))
        } else {
            match text::utf8_text(stdout) {
                Err(error) => Some(AdapterErrorView::MalformedVersion(error)),
                Ok(output) => match text::second_word(output) {
                    None => Some(AdapterErrorView::MalformedVersion(text::trimmed(output))),
                    Some(word) => match parse_version(word) {
                        None => Some(AdapterErrorView::MalformedVersion(text::trimmed(output))),
                        Some(version) => if older(version, minimum_version()) {
                            Some(
                                AdapterErrorView::IncompatibleVersion {
                                    found: version_text(version),
                                    minimum: version_text(minimum_version()),
                                },
                            )
                        } else {
                            None
                        },
                    },
                },
            }
        },
        _ => Some(unavailable(result)),
    }
}

/// Reads the output of Worktrunk's version command.
pub fn validate_version(result: &CommandResult) -> (error: Option<AdapterError>)
    ensures
        error.deep_view() == version_error(result.deep_view()),
{
    match result {
        CommandResult::Failed(error) => Some(AdapterError::Unavailable(error.clone())),
        CommandResult::TimedOut => Some(AdapterError::TimedOut),
        CommandResult::Exited { code, stdout, stderr } => {
            if !command::is_success(*code) {
                return Some(AdapterError::VersionCommand(flow::stderr_message(stderr)));
            }
            let output = match text::from_utf8(stdout.as_slice()) {
                Err(error) => return Some(AdapterError::MalformedVersion(error)),
                Ok(output) => output,
            };
            let word = match text::nth_word_1(output.as_str()) {
                None => return Some(AdapterError::MalformedVersion(text::trim(output.as_str()))),
                Some(word) => word,
            };
            let version = match Version::parse(word.as_str()) {
                None => return Some(AdapterError::MalformedVersion(text::trim(output.as_str()))),
                Some(version) => version,
            };
            let minimum = Version { major: 0, minor: 66, patch: 0 };
            if version.is_older(minimum) {
                return Some(
                    AdapterError::IncompatibleVersion {
                        found: version.display(),
                        minimum: minimum.display(),
                    },
                );
            }
            None
        },
    }
}

/// The rows of a list that tell of `branch` at `path`.
pub open spec fn matching_rows(
    items: Seq<ListItemView>,
    branch: Seq<char>,
    path: Seq<u8>,
) -> Seq<ListItemView>
    decreases items.len(),
{
    if items.len() == 0 {
        Seq::empty()
    } else {
        let before = matching_rows(items.drop_last(), branch, path);
        if row_matches(items.last(), branch, path) {
            before.push(items.last())
        } else {
            before
        }
    }
}

/// Whether a row tells of `branch` at `path`.
pub open spec fn row_matches(item: ListItemView, branch: Seq<char>, path: Seq<u8>) -> bool {
    item.branch == Some(branch) && (item.worktree matches Some(worktree) && filepath::same_path(
        worktree,
        path,
    ))
}

fn is_row_for(item: &ListItem, branch: &str, path: &FilePath) -> (result: bool)
    ensures
        result == row_matches(item.deep_view(), branch@, path@),
{
    match (&item.branch, &item.worktree) {
        (Some(found), Some(worktree)) => text::same_text(found.as_str(), branch)
            && worktree.same_as(path),
        _ => false,
    }
}

fn find_rows(items: &Vec<ListItem>, branch: &str, path: &FilePath) -> (found: (Option<usize>, bool))
    ensures
        ({
            let rows = matching_rows(items.deep_view(), branch@, path@);
            &&& found.0 is None <==> rows.len() == 0
            &&& found.0 matches Some(i) ==> {
                &&& i < items.len()
                &&& items.deep_view()[i as int] == rows[0]
            }
            &&& found.1 == (rows.len() > 1)
        }),
{
    let ghost all = items.deep_view();
    let mut first: Option<usize> = None;
    let mut more = false;
    let mut i: usize = 0;
    assert(all.take(0) =~= Seq::empty());
    while i < items.len()
        invariant
            i <= items.len(),
            all == items.deep_view(),
            first is None <==> matching_rows(all.take(i as int), branch@, path@).len() == 0,
            first matches Some(k) ==> k < items.len() && all[k as int] == matching_rows(
                all.take(i as int),
                branch@,
                path@,
            )[0],
            more == (matching_rows(all.take(i as int), branch@, path@).len() > 1),
        decreases items.len() - i,
    {
        assert(all.take(i + 1).drop_last() =~= all.take(i as int));
        assert(all.take(i + 1).last() == items[i as int].deep_view());
        if is_row_for(&items[i], branch, path) {
            if first.is_some() {
                more = true;
            } else {
                first = Some(i);
            }
        }
        i += 1;
    }
    assert(all.take(i as int) =~= all);
    (first, more)
}

/// What a row proves, by its relation to the default branch.
pub open spec fn relation_proof(relation: RelationPresence, branch: Seq<char>) -> Result<
    IntegrationProof,
    AdapterErrorView,
> {
    match relation {
        RelationPresence::Missing => Err(
            AdapterErrorView::MalformedResult(
                "Worktrunk omitted the default-branch relation for "@ + branch,
            ),
        ),
        RelationPresence::Null => Ok(IntegrationProof::Indeterminate),
        RelationPresence::Value(IntegrationPresence::Missing) => Ok(
            IntegrationProof::NotIntegrated,
        ),
        RelationPresence::Value(IntegrationPresence::Null) => Ok(IntegrationProof::Indeterminate),
        RelationPresence::Value(IntegrationPresence::Value(reason)) => Ok(
            IntegrationProof::Integrated(reason),
        ),
    }
}

/// What a list proves of a candidate: the one row that tells of its branch at its path counts,
/// as long as it names the candidate's commit.
pub open spec fn candidate_proof(
    items: Seq<ListItemView>,
    default_branch: Seq<char>,
    candidate: IntegrationCandidateView,
) -> Result<IntegrationProof, AdapterErrorView> {
    let branch = text::without_prefix(candidate.branch, "refs/heads/"@);
    let rows = matching_rows(items, branch, candidate.path);
    if branch == default_branch {
        Err(
            AdapterErrorView::MalformedResult(
                "candidate "@ + candidate.branch + " is Worktrunk's default branch"@,
            ),
        )
    } else if rows.len() == 0 {
        Err(
            AdapterErrorView::MalformedResult(
                "no Worktrunk row matched branch "@ + candidate.branch + " at "@
                    + text::lossy_text(candidate.path),
            ),
        )
    } else if rows.len() > 1 {
        Err(
            AdapterErrorView::MalformedResult(
                "multiple Worktrunk rows matched branch "@ + candidate.branch + " at "@
                    + text::lossy_text(candidate.path),
            ),
        )
    } else {
        match rows[0].head {
            None => Err(
                AdapterErrorView::MalformedResult(
                    "Worktrunk returned no HEAD for "@ + candidate.branch,
                ),
            ),
            Some(head) => if head != candidate.head {
                Err(
                    AdapterErrorView::MalformedResult(
                        "Worktrunk HEAD for "@ + candidate.branch + " changed from "@
                            + candidate.head + " to "@ + head,
                    ),
                )
            } else {
                relation_proof(rows[0].default_branch, candidate.branch)
            },
        }
    }
}

/// What a list proves of a candidate.
pub fn proof_for_candidate(
    items: &Vec<ListItem>,
    default_branch: &str,
    candidate: &IntegrationCandidate,
) -> (result: Result<IntegrationProof, AdapterError>)
    ensures
        flow::result_view(result) == candidate_proof(
            items.deep_view(),
            default_branch@,
            candidate.deep_view(),
        ),
{
    let branch = text::strip_prefix(candidate.branch.as_str(), "refs/heads/");
    if text::same_text(branch.as_str(), default_branch) {
        return Err(
            AdapterError::MalformedResult(
                text::concat3(
                    "candidate ",
                    candidate.branch.as_str(),
                    " is Worktrunk's default branch",
                ),
            ),
        );
    }
    let (first, more) = find_rows(items, branch.as_str(), &candidate.path);
    let index = match first {
        None => {
            let path = candidate.path.display();
            return Err(
                AdapterError::MalformedResult(
                    text::concat4(
                        "no Worktrunk row matched branch ",
                        candidate.branch.as_str(),
                        " at ",
                        path.as_str(),
                    ),
                ),
            );
        },
        Some(index) => index,
    };
    if more {
        let path = candidate.path.display();
        return Err(
            AdapterError::MalformedResult(
                text::concat4(
                    "multiple Worktrunk rows matched branch ",
                    candidate.branch.as_str(),
                    " at ",
                    path.as_str(),
                ),
            ),
        );
    }
    let item = &items[index];
    assert(item.deep_view() == items.deep_view()[index as int]);
    let head = match &item.head {
        None => return Err(
            AdapterError::MalformedResult(
                text::concat2("Worktrunk returned no HEAD for ", candidate.branch.as_str()),
            ),
        ),
        Some(head) => head,
    };
    if !text::same_text(head.as_str(), candidate.head.as_str()) {
        let change = text::concat5(
            "Worktrunk HEAD for ",
            candidate.branch.as_str(),
            " changed from ",
            candidate.head.as_str(),
            " to ",
        );
        return Err(
            AdapterError::MalformedResult(text::concat2(change.as_str(), head.as_str())),
        );
    }
    match item.default_branch {
        RelationPresence::Missing => Err(
            AdapterError::MalformedResult(
                text::concat2(
                    "Worktrunk omitted the default-branch relation for ",
                    candidate.branch.as_str(),
                ),
            ),
        ),
        RelationPresence::Null => Ok(IntegrationProof::Indeterminate),
        RelationPresence::Value(IntegrationPresence::Missing) => Ok(
            IntegrationProof::NotIntegrated,
        ),
        RelationPresence::Value(IntegrationPresence::Null) => Ok(IntegrationProof::Indeterminate),
        RelationPresence::Value(IntegrationPresence::Value(reason)) => Ok(
            IntegrationProof::Integrated(reason),
        ),
    }
}

/// What a list proves of the candidates from the one number `done.len()` on; the first one of
/// which it proves nothing makes all of it an error.
pub open spec fn candidate_proofs(
    items: Seq<ListItemView>,
    default_branch: Seq<char>,
    candidates: Seq<IntegrationCandidateView>,
    done: Seq<IntegrationProof>,
) -> Result<Seq<IntegrationProof>, AdapterErrorView>
    decreases candidates.len() - done.len(),
{
    if done.len() >= candidates.len() {
        Ok(done)
    } else {
        match candidate_proof(items, default_branch, candidates[done.len() as int]) {
            Err(error) => Err(error),
            Ok(proof_found) => candidate_proofs(
                items,
                default_branch,
                candidates,
                done.push(proof_found),
            ),
        }
    }
}

/// What Worktrunk's list proves of the candidates.
pub open spec fn envelope_proofs(
    envelope: ListEnvelopeView,
    candidates: Seq<IntegrationCandidateView>,
) -> Result<Seq<IntegrationProof>, AdapterErrorView> {
    if envelope.schema != REQUIRED_SCHEMA {
        Err(AdapterErrorView::IncompatibleSchema(envelope.schema))
    } else {
        match envelope.default_branch {
            Some(name) if name.len() > 0 => candidate_proofs(
                envelope.items,
                name,
                candidates,
                Seq::empty(),
            ),
            _ => Ok(
                Seq::new(candidates.len(), |i: int| IntegrationProof::DefaultBranchUnresolved),
            ),
        }
    }
}

/// What Worktrunk's list proves of the candidates.
pub fn parse_proofs(
    envelope: &ListEnvelope,
    candidates: &Vec<IntegrationCandidate>,
) -> (result: Result<
    Vec<IntegrationProof>,
    AdapterError,
>)
    ensures
        flow::result_view(result) == envelope_proofs(envelope.deep_view(), candidates.deep_view()),
{
    if envelope.schema != REQUIRED_SCHEMA {
        return Err(AdapterError::IncompatibleSchema(envelope.schema));
    }
    let ghost all = candidates.deep_view();
    let ghost goal = envelope_proofs(envelope.deep_view(), all);
    let mut proofs: Vec<IntegrationProof> = Vec::new();
    match &envelope.default_branch {
        Some(name) if !text::is_blank(name.as_str()) => {
            assert(proofs.deep_view() =~= Seq::empty());
            while proofs.len() < candidates.len()
                invariant
                    all == candidates.deep_view(),
                    goal == envelope_proofs(envelope.deep_view(), all),
                    goal == candidate_proofs(
                        envelope.items.deep_view(),
                        name@,
                        all,
                        proofs.deep_view(),
                    ),
                decreases candidates.len() - proofs.len(),
            {
                let ghost before = proofs.deep_view();
                let next = proofs.len();
                assert(all[next as int] == candidates[next as int].deep_view());
                match proof_for_candidate(&envelope.items, name.as_str(), &candidates[next]) {
                    Err(error) => return Err(error),
                    Ok(proof_found) => {
                        proofs.push(proof_found);
                        assert(proofs.deep_view() =~= before.push(proof_found));
                    },
                }
            }
        },
        _ => {
            while proofs.len() < candidates.len()
                invariant
                    proofs.len() <= candidates.len(),
                    forall|k: int|
                        0 <= k < proofs.len() ==> proofs@[k]
                            == IntegrationProof::DefaultBranchUnresolved,
                decreases candidates.len() - proofs.len(),
            {
                proofs.push(IntegrationProof::DefaultBranchUnresolved);
            }
            assert(proofs.deep_view() =~= Seq::new(
                all.len(),
                |i: int| IntegrationProof::DefaultBranchUnresolved,
            ));
        },
    }
    Ok(proofs)
}

/// The command that tells the version of Worktrunk.
pub open spec fn version_command(timeout: u64) -> command::CommandLineView {
    command::git_command("wt"@, None, seq!["--version"@], false, Some(timeout))
}

fn new_version_command(timeout: u64) -> (line: CommandLine)
    ensures
        line.deep_view() == version_command(timeout),
{
    let mut arguments = command::new_texts();
    text::push_text(&mut arguments, "--version");
    command::new_git_command("wt", None, arguments, false, Some(timeout))
}

/// The command with which Worktrunk lists worktrees; the layout of the list is fixed in it.
pub open spec fn list_command(repository: Seq<u8>, timeout: u64) -> command::CommandLineView {
    command::git_command(
        "wt"@,
        None,
        seq![
            "-C"@,
            text::lossy_text(repository),
            "--config-set"@,
            "list.json-schema=2"@,
            "list"@,
            "--format=json"@,
        ],
        false,
        Some(timeout),
    )
}

fn new_list_command(repository: &FilePath, timeout: u64) -> (line: CommandLine)
    ensures
        line.deep_view() == list_command(repository@, timeout),
{
    let shown = repository.display();
    let mut arguments = command::texts4("-C", shown.as_str(), "--config-set", "list.json-schema=2");
    text::push_text(&mut arguments, "list");
    text::push_text(&mut arguments, "--format=json");
    assert(arguments.deep_view() =~= seq![
        "-C"@,
        text::lossy_text(repository@),
        "--config-set"@,
        "list.json-schema=2"@,
        "list"@,
        "--format=json"@,
    ]);
    command::new_git_command("wt", None, arguments, false, Some(timeout))
}

/// The proofs for the candidates: Worktrunk's version is checked first, its list is read next.
/// Nothing is asked where there is no candidate.
pub open spec fn prove_flow(
    repository: Seq<u8>,
    candidates: Seq<IntegrationCandidateView>,
    timeout: u64,
    replies: Seq<ReplyView>,
    at: int,
) -> Flow<Result<Seq<IntegrationProof>, AdapterErrorView>> {
    if candidates.len() == 0 {
        Flow::Done(Ok(Seq::empty()), at)
    } else {
        match flow::run_flow(version_command(timeout), replies, at) {
            Flow::Ask(request) => Flow::Ask(request),
            Flow::Done(version, next) => match version_error(version) {
                Some(error) => Flow::Done(Err(error), next),
                None => match flow::run_flow(list_command(repository, timeout), replies, next) {
                    Flow::Ask(request) => Flow::Ask(request),
                    Flow::Done(CommandResultView::Exited { code, stdout, stderr }, next) => {
                        if !command::succeeded(code) {
                            Flow::Done(
                                Err(AdapterErrorView::ListCommand(flow::stderr_text(stderr))),
                                next,
                            )
                        } else if next >= replies.len() {
                            Flow::Ask(RequestView::DecodeList(stdout))
                        } else {
                            match command::list_envelope(replies[next]) {
                                Err(error) => Flow::Done(
                                    Err(AdapterErrorView::MalformedJson(error)),
                                    next + 1,
                                ),
                                Ok(envelope) => Flow::Done(
                                    envelope_proofs(envelope, candidates),
                                    next + 1,
                                ),
                            }
                        }
                    },
                    Flow::Done(result, next) => Flow::Done(Err(unavailable(result)), next),
                },
            },
        }
    }
}

/// Uses Worktrunk's structured list result to prove whether candidates add no committed changes
/// to the repository's default branch.
///
/// The layout of the list is requested explicitly, so user configuration and changes to
/// Worktrunk's default layout cannot silently alter its interpretation. It is an error when
/// Worktrunk is missing, incompatible, fails, times out, or emits malformed or ambiguous output.
pub fn prove_integrations(
    repository: &FilePath,
    candidates: &Vec<IntegrationCandidate>,
    timeout: u64,
    replies: &Vec<Reply>,
    at: usize,
) -> (step: Step<Result<Vec<IntegrationProof>, AdapterError>>)
    ensures
        flow::step_view(step) == prove_flow(
            repository@,
            candidates.deep_view(),
            timeout,
            replies.deep_view(),
            at as int,
        ),
{
    if candidates.len() == 0 {
        let proofs: Vec<IntegrationProof> = Vec::new();
        assert(proofs.deep_view() =~= Seq::empty());
        return Step::Done(Ok(proofs), at);
    }
    let (version, next) = match flow::run_step(new_version_command(timeout), replies, at) {
        Step::Ask(request) => return Step::Ask(request),
        Step::Done(version, next) => (version, next),
    };
    match validate_version(&version) {
        Some(error) => return Step::Done(Err(error), next),
        None => {},
    }
    let (list, next) = match flow::run_step(new_list_command(repository, timeout), replies, next) {
        Step::Ask(request) => return Step::Ask(request),
        Step::Done(list, next) => (list, next),
    };
    match list {
        CommandResult::Failed(error) => Step::Done(Err(AdapterError::Unavailable(error)), next),
        CommandResult::TimedOut => Step::Done(Err(AdapterError::TimedOut), next),
        CommandResult::Exited { code, stdout, stderr } => {
            if !command::is_success(code) {
                let message = flow::stderr_message(&stderr);
                return Step::Done(Err(AdapterError::ListCommand(message)), next);
            }
            if next >= replies.len() {
                return Step::Ask(Request::DecodeList(stdout));
            }
            match &replies[next] {
                Reply::List(Ok(envelope)) => Step::Done(
                    parse_proofs(envelope, candidates),
                    next + 1,
                ),
                Reply::List(Err(error)) => Step::Done(
                    Err(AdapterError::MalformedJson(error.clone())),
                    next + 1,
                ),
                _ => Step::Done(
                    Err(AdapterError::MalformedJson(command::UNEXPECTED_REPLY.to_owned())),
                    next + 1,
                ),
            }
        },
    }
}

/// The classification that a proof leads to.
pub open spec fn proved_classification(found: IntegrationProof) -> WorktreeClassification {
    match found {
        IntegrationProof::Integrated(IntegrationReason::SameCommit) => {
            WorktreeClassification::IntegratedSameCommit
        },
        IntegrationProof::Integrated(IntegrationReason::Ancestor) => {
            WorktreeClassification::IntegratedAncestor
        },
        IntegrationProof::Integrated(IntegrationReason::NoAddedChanges) => {
            WorktreeClassification::IntegratedNoAddedChanges
        },
        IntegrationProof::Integrated(IntegrationReason::TreesMatch) => {
            WorktreeClassification::IntegratedTreesMatch
        },
        IntegrationProof::Integrated(IntegrationReason::MergeAddsNothing) => {
            WorktreeClassification::IntegratedMergeAddsNothing
        },
        IntegrationProof::Integrated(IntegrationReason::PatchIdMatch) => {
            WorktreeClassification::IntegratedPatchIdMatch
        },
        IntegrationProof::NotIntegrated => WorktreeClassification::NotIntegrated,
        IntegrationProof::Indeterminate => WorktreeClassification::IntegrationIndeterminate,
        IntegrationProof::DefaultBranchUnresolved => {
            WorktreeClassification::DefaultBranchUnresolved
        },
    }
}

/// The classification that a proof leads to.
pub fn classify_proof(found: IntegrationProof) -> (classification: WorktreeClassification)
    ensures
        classification == proved_classification(found),
{
    match found {
        IntegrationProof::Integrated(IntegrationReason::SameCommit) => {
            WorktreeClassification::IntegratedSameCommit
        },
        IntegrationProof::Integrated(IntegrationReason::Ancestor) => {
            WorktreeClassification::IntegratedAncestor
        },
        IntegrationProof::Integrated(IntegrationReason::NoAddedChanges) => {
            WorktreeClassification::IntegratedNoAddedChanges
        },
        IntegrationProof::Integrated(IntegrationReason::TreesMatch) => {
            WorktreeClassification::IntegratedTreesMatch
        },
        IntegrationProof::Integrated(IntegrationReason::MergeAddsNothing) => {
            WorktreeClassification::IntegratedMergeAddsNothing
        },
        IntegrationProof::Integrated(IntegrationReason::PatchIdMatch) => {
            WorktreeClassification::IntegratedPatchIdMatch
        },
        IntegrationProof::NotIntegrated => WorktreeClassification::NotIntegrated,
        IntegrationProof::Indeterminate => WorktreeClassification::IntegrationIndeterminate,
        IntegrationProof::DefaultBranchUnresolved => {
            WorktreeClassification::DefaultBranchUnresolved
        },
    }
}

/// Whether the integration of a worktree is to be proved: its upstream is gone.
pub open spec fn needs_proof(worktree: WorktreeInspectionView) -> bool {
    worktree.classification is UpstreamMissing && worktree.branch is Some
}

fn is_in_need(worktree: &WorktreeInspection) -> (result: bool)
    ensures
        result == needs_proof(worktree.deep_view()),
{
    worktree.classification == WorktreeClassification::UpstreamMissing && worktree.branch.is_some()
}

/// The candidates among the worktrees, in order.
pub open spec fn candidates_among(worktrees: Seq<WorktreeInspectionView>) -> Seq<
    IntegrationCandidateView,
>
    decreases worktrees.len(),
{
    if worktrees.len() == 0 {
        Seq::empty()
    } else {
        let before = candidates_among(worktrees.drop_last());
        let last = worktrees.last();
        if needs_proof(last) {
            before.push(
                IntegrationCandidateView {
                    path: last.path,
                    branch: last.branch->0,
                    head: last.head,
                },
            )
        } else {
            before
        }
    }
}

fn find_candidates(worktrees: &Vec<WorktreeInspection>) -> (candidates: Vec<IntegrationCandidate>)
    ensures
        candidates.deep_view() == candidates_among(worktrees.deep_view()),
{
    let ghost all = worktrees.deep_view();
    let mut candidates: Vec<IntegrationCandidate> = Vec::new();
    let mut i: usize = 0;
    assert(all.take(0) =~= Seq::empty());
    assert(candidates.deep_view() =~= Seq::empty());
    while i < worktrees.len()
        invariant
            i <= worktrees.len(),
            all == worktrees.deep_view(),
            candidates.deep_view() == candidates_among(all.take(i as int)),
        decreases worktrees.len() - i,
    {
        let ghost before = candidates.deep_view();
        let worktree = &worktrees[i];
        assert(all.take(i + 1).drop_last() =~= all.take(i as int));
        assert(all.take(i + 1).last() == worktree.deep_view());
        if is_in_need(worktree) {
            if let Some(branch) = &worktree.branch {
                let candidate = IntegrationCandidate {
                    path: worktree.path.clone(),
                    branch: branch.clone(),
                    head: worktree.head.clone(),
                };
                let ghost added = candidate.deep_view();
                candidates.push(candidate);
                assert(candidates.deep_view() =~= before.push(added));
            }
        }
        i += 1;
    }
    assert(all.take(i as int) =~= all);
    candidates
}

/// The worktrees with what the proofs, one for each candidate, say of the candidates.
pub open spec fn with_proofs(
    worktrees: Seq<WorktreeInspectionView>,
    proofs: Seq<IntegrationProof>,
) -> Seq<WorktreeInspectionView> {
    Seq::new(
        worktrees.len(),
        |i: int|
            if needs_proof(worktrees[i]) {
                WorktreeInspectionView {
                    classification: proved_classification(
                        proofs[candidates_among(worktrees.take(i)).len() as int],
                    ),
                    ..worktrees[i]
                }
            } else {
                worktrees[i]
            },
    )
}

/// The worktrees with a failure recorded for each candidate.
pub open spec fn without_proofs(worktrees: Seq<WorktreeInspectionView>) -> Seq<
    WorktreeInspectionView,
> {
    Seq::new(
        worktrees.len(),
        |i: int|
            if needs_proof(worktrees[i]) {
                WorktreeInspectionView {
                    classification: WorktreeClassification::WorktrunkFailed,
                    ..worktrees[i]
                }
            } else {
                worktrees[i]
            },
    )
}

proof fn lemma_candidates_grow(worktrees: Seq<WorktreeInspectionView>, i: int)
    requires
        0 <= i < worktrees.len(),
    ensures
        candidates_among(worktrees.take(i)).len() <= candidates_among(worktrees).len(),
        needs_proof(worktrees[i]) ==> candidates_among(worktrees.take(i)).len()
            < candidates_among(worktrees).len(),
    decreases worktrees.len(),
{
    let shorter = worktrees.drop_last();
    if i < shorter.len() {
        lemma_candidates_grow(shorter, i);
        assert(shorter.take(i) =~= worktrees.take(i));
        assert(shorter[i] == worktrees[i]);
    } else {
        assert(worktrees.take(i) =~= shorter);
    }
}

fn record_proofs(
    worktrees: &Vec<WorktreeInspection>,
    proofs: &Vec<IntegrationProof>,
) -> (proved: Vec<WorktreeInspection>)
    requires
        proofs.len() == candidates_among(worktrees.deep_view()).len(),
    ensures
        proved.deep_view() == with_proofs(worktrees.deep_view(), proofs.deep_view()),
{
    let ghost all = worktrees.deep_view();
    let ghost goal = with_proofs(all, proofs.deep_view());
    let mut proved: Vec<WorktreeInspection> = Vec::new();
    let mut used: usize = 0;
    let mut i: usize = 0;
    assert(all.take(0) =~= Seq::empty());
    assert(proved.deep_view() =~= goal.take(0));
    while i < worktrees.len()
        invariant
            i <= worktrees.len(),
            all == worktrees.deep_view(),
            goal == with_proofs(all, proofs.deep_view()),
            proofs.len() == candidates_among(all).len(),
            used == candidates_among(all.take(i as int)).len(),
            used <= proofs.len(),
            proved.deep_view() == goal.take(i as int),
        decreases worktrees.len() - i,
    {
        let ghost before = proved.deep_view();
        let mut worktree = worktrees[i].clone();
        assert(all[i as int] == worktrees[i as int].deep_view());
        assert(all.take(i + 1).drop_last() =~= all.take(i as int));
        assert(all.take(i + 1).last() == all[i as int]);
        proof {
            lemma_candidates_grow(all, i as int);
        }
        if is_in_need(&worktrees[i]) {
            worktree.classification = classify_proof(proofs[used]);
            used += 1;
        }
        let ghost added = worktree.deep_view();
        proved.push(worktree);
        assert(added == goal[i as int]);
        assert(proved.deep_view() =~= before.push(added));
        assert(goal.take(i + 1) =~= goal.take(i as int).push(goal[i as int]));
        i += 1;
    }
    assert(goal.take(i as int) =~= goal);
    proved
}

fn record_failure(worktrees: &Vec<WorktreeInspection>) -> (marked: Vec<WorktreeInspection>)
    ensures
        marked.deep_view() == without_proofs(worktrees.deep_view()),
{
    let ghost goal = without_proofs(worktrees.deep_view());
    let mut marked: Vec<WorktreeInspection> = Vec::new();
    let mut i: usize = 0;
    assert(marked.deep_view() =~= goal.take(0));
    while i < worktrees.len()
        invariant
            i <= worktrees.len(),
            goal == without_proofs(worktrees.deep_view()),
            marked.deep_view() == goal.take(i as int),
        decreases worktrees.len() - i,
    {
        let ghost before = marked.deep_view();
        let mut worktree = worktrees[i].clone();
        assert(worktrees.deep_view()[i as int] == worktrees[i as int].deep_view());
        if is_in_need(&worktrees[i]) {
            worktree.classification = WorktreeClassification::WorktrunkFailed;
        }
        let ghost added = worktree.deep_view();
        marked.push(worktree);
        assert(marked.deep_view() =~= before.push(added));
        assert(goal.take(i + 1) =~= goal.take(i as int).push(goal[i as int]));
        i += 1;
    }
    assert(goal.take(i as int) =~= goal);
    marked
}

/// The inspection of a repository with the integration of its candidates. Nothing is proved
/// after an inspection that did not succeed.
pub open spec fn integrate_flow(
    repository: Seq<u8>,
    inspection: RepositoryInspectionView,
    timeout: u64,
    replies: Seq<ReplyView>,
    at: int,
) -> Flow<RepositoryInspectionView> {
    if inspection.outcome != RepositoryInspectionOutcome::Inspected {
        Flow::Done(inspection, at)
    } else {
        match prove_flow(
            repository,
            candidates_among(inspection.worktrees),
            timeout,
            replies,
            at,
        ) {
            Flow::Ask(request) => Flow::Ask(request),
            Flow::Done(Err(error), next) => Flow::Done(
                RepositoryInspectionView {
                    outcome: RepositoryInspectionOutcome::IntegrationFailed,
                    message: Some(adapter_message(error)),
                    worktrees: without_proofs(inspection.worktrees),
                },
                next,
            ),
            Flow::Done(Ok(proofs), next) => Flow::Done(
                RepositoryInspectionView {
                    worktrees: with_proofs(inspection.worktrees, proofs),
                    ..inspection
                },
                next,
            ),
        }
    }
}

proof fn lemma_candidate_proofs(
    items: Seq<ListItemView>,
    default_branch: Seq<char>,
    candidates: Seq<IntegrationCandidateView>,
    done: Seq<IntegrationProof>,
)
    requires
        done.len() <= candidates.len(),
        forall|k: int|
            0 <= k < done.len() ==> candidate_proof(items, default_branch, candidates[k]) == Ok::<
                IntegrationProof,
                AdapterErrorView,
            >(#[trigger] done[k]),
    ensures
        candidate_proofs(items, default_branch, candidates, done) matches Ok(proofs) ==> {
            &&& proofs.len() == candidates.len()
            &&& forall|k: int|
                0 <= k < proofs.len() ==> candidate_proof(items, default_branch, candidates[k])
                    == Ok::<IntegrationProof, AdapterErrorView>(#[trigger] proofs[k])
        },
    decreases candidates.len() - done.len(),
{
    if done.len() < candidates.len() {
        match candidate_proof(items, default_branch, candidates[done.len() as int]) {
            Err(_) => {},
            Ok(found) => {
                let more = done.push(found);
                assert forall|k: int| 0 <= k < more.len() implies candidate_proof(
                    items,
                    default_branch,
                    candidates[k],
                ) == Ok::<IntegrationProof, AdapterErrorView>(#[trigger] more[k]) by {
                    if k < done.len() {
                        assert(more[k] == done[k]);
                    }
                }
                lemma_candidate_proofs(items, default_branch, candidates, more);
            },
        }
    }
}

/// Where proofs come back, there is one for each candidate, in order.
pub proof fn law_one_proof_for_each_candidate(
    repository: Seq<u8>,
    candidates: Seq<IntegrationCandidateView>,
    timeout: u64,
    replies: Seq<ReplyView>,
    at: int,
)
    ensures
        prove_flow(repository, candidates, timeout, replies, at) matches Flow::Done(Ok(proofs), _)
            ==> proofs.len() == candidates.len(),
{
    if at + 2 < replies.len() {
        if let Ok(envelope) = command::list_envelope(replies[at + 2]) {
            if let Some(name) = envelope.default_branch {
                lemma_candidate_proofs(envelope.items, name, candidates, Seq::empty());
            }
        }
    }
}

/// Completes the inspection of a repository: every worktree whose upstream is gone is classified
/// by what Worktrunk proves of its branch.
pub fn integrate(
    repository: &FilePath,
    inspection: RepositoryInspection,
    timeout: u64,
    replies: &Vec<Reply>,
    at: usize,
) -> (step: Step<RepositoryInspection>)
    ensures
        step.deep_view() == integrate_flow(
            repository@,
            inspection.deep_view(),
            timeout,
            replies.deep_view(),
            at as int,
        ),
{
    if inspection.outcome != RepositoryInspectionOutcome::Inspected {
        return Step::Done(inspection, at);
    }
    let candidates = find_candidates(&inspection.worktrees);
    proof {
        law_one_proof_for_each_candidate(
            repository@,
            candidates.deep_view(),
            timeout,
            replies.deep_view(),
            at as int,
        );
    }
    match prove_integrations(repository, &candidates, timeout, replies, at) {
        Step::Ask(request) => Step::Ask(request),
        Step::Done(Err(error), next) => Step::Done(
            RepositoryInspection {
                outcome: RepositoryInspectionOutcome::IntegrationFailed,
                message: Some(error.message()),
                worktrees: record_failure(&inspection.worktrees),
            },
            next,
        ),
        Step::Done(Ok(proofs), next) => {
            let worktrees = record_proofs(&inspection.worktrees, &proofs);
            Step::Done(
                RepositoryInspection {
                    outcome: inspection.outcome,
                    message: inspection.message,
                    worktrees,
                },
                next,
            )
        },
    }
}

/// Whether a classification says that a branch adds nothing to the default branch.
pub open spec fn integrated(classification: WorktreeClassification) -> bool {
    classification is IntegratedSameCommit || classification is IntegratedAncestor
        || classification is IntegratedNoAddedChanges || classification is IntegratedTreesMatch
        || classification is IntegratedMergeAddsNothing || classification is IntegratedPatchIdMatch
}

proof fn lemma_rows(items: Seq<ListItemView>, branch: Seq<char>, path: Seq<u8>)
    ensures
        forall|k: int|
            0 <= k < matching_rows(items, branch, path).len() ==> row_matches(
                #[trigger] matching_rows(items, branch, path)[k],
                branch,
                path,
            ) && items.contains(matching_rows(items, branch, path)[k]),
    decreases items.len(),
{
    if items.len() > 0 {
        let shorter = items.drop_last();
        lemma_rows(shorter, branch, path);
        let rows = matching_rows(items, branch, path);
        assert forall|k: int| 0 <= k < rows.len() implies row_matches(
            #[trigger] rows[k],
            branch,
            path,
        ) && items.contains(rows[k]) by {
            let before = matching_rows(shorter, branch, path);
            if k < before.len() {
                assert(rows[k] == before[k]);
                let j = choose|j: int| 0 <= j < shorter.len() && shorter[j] == before[k];
                assert(items[j] == rows[k]);
            } else {
                assert(items[items.len() - 1] == rows[k]);
            }
        }
    }
}

/// A list proves the integration of a candidate only by a row of its own that names the
/// candidate's branch, path and commit, and gives the reason; and never for the default branch.
pub proof fn law_integration_needs_a_row(
    items: Seq<ListItemView>,
    default_branch: Seq<char>,
    candidate: IntegrationCandidateView,
    reason: IntegrationReason,
)
    requires
        candidate_proof(items, default_branch, candidate) == Ok::<
            IntegrationProof,
            AdapterErrorView,
        >(IntegrationProof::Integrated(reason)),
    ensures
        text::without_prefix(candidate.branch, "refs/heads/"@) != default_branch,
        exists|row: ListItemView|
            {
                &&& #[trigger] items.contains(row)
                &&& row_matches(
                    row,
                    text::without_prefix(candidate.branch, "refs/heads/"@),
                    candidate.path,
                )
                &&& row.head == Some(candidate.head)
                &&& row.default_branch == RelationPresence::Value(
                    IntegrationPresence::Value(reason),
                )
            },
{
    let branch = text::without_prefix(candidate.branch, "refs/heads/"@);
    lemma_rows(items, branch, candidate.path);
    let row = matching_rows(items, branch, candidate.path)[0];
    assert(items.contains(row));
}

/// Where Worktrunk is missing, incompatible, fails, times out, or emits something ambiguous, no
/// worktree counts as integrated, and the inspection does not count as successful.
pub proof fn law_failed_proof_integrates_nothing(
    repository: Seq<u8>,
    inspection: RepositoryInspectionView,
    timeout: u64,
    replies: Seq<ReplyView>,
    at: int,
)
    requires
        inspection.outcome is Inspected,
        forall|k: int|
            0 <= k < inspection.worktrees.len() ==> inspection::laws::unproved(
                (#[trigger] inspection.worktrees[k]).classification,
            ),
        prove_flow(repository, candidates_among(inspection.worktrees), timeout, replies, at)
            matches Flow::Done(Err(_), _),
    ensures
        integrate_flow(repository, inspection, timeout, replies, at) matches Flow::Done(result, _)
            && result.outcome is IntegrationFailed && forall|k: int|
            0 <= k < result.worktrees.len() ==> !integrated(
                (#[trigger] result.worktrees[k]).classification,
            ),
{
}

} // verus!
