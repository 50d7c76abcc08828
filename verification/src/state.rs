//! What is remembered from one run to the next.
use crate::command;
use crate::command::{Reply, ReplyView, Request, RequestView};
use crate::filepath::FilePath;
use crate::flow;
use crate::flow::{Flow, Step};
use crate::output::TOOL_VERSION;
use crate::text;
use crate::textmap::{Duplicate, TextMap};
use vstd::prelude::*;

verus! {

/// The version of the state's layout.
pub const STATE_SCHEMA_VERSION: u32 = 1;

/// The last outcome and reason that were reported for a worktree.
#[derive(Debug, PartialEq, Eq)]
pub struct ClassificationState {
    pub classification: String,
    pub reason_code: String,
}

/// The content of a [`ClassificationState`].
pub struct ClassificationStateView {
    pub classification: Seq<char>,
    pub reason_code: Seq<char>,
}

impl DeepView for ClassificationState {
    type V = ClassificationStateView;

    open spec fn deep_view(&self) -> ClassificationStateView {
        ClassificationStateView {
            classification: self.classification@,
            reason_code: self.reason_code@,
        }
    }
}

impl Clone for ClassificationState {
    fn clone(&self) -> (copy: Self)
        ensures
            copy.deep_view() == self.deep_view(),
    {
        ClassificationState {
            classification: self.classification.clone(),
            reason_code: self.reason_code.clone(),
        }
    }
}

/// What is remembered of a repository.
#[derive(Debug, PartialEq, Eq)]
pub struct RepositoryState {
    pub last_successful_fetch_at: Option<String>,
    /// The last reported classification by worktree path, to recognise repeated reports.
    pub last_classifications: TextMap<ClassificationState>,
}

/// The content of a [`RepositoryState`].
pub struct RepositoryStateView {
    pub last_successful_fetch_at: Option<Seq<char>>,
    pub last_classifications: Map<Seq<char>, ClassificationStateView>,
}

impl DeepView for RepositoryState {
    type V = RepositoryStateView;

    open spec fn deep_view(&self) -> RepositoryStateView {
        RepositoryStateView {
            last_successful_fetch_at: self.last_successful_fetch_at.deep_view(),
            last_classifications: self.last_classifications.deep_view(),
        }
    }
}

/// What is remembered.
#[derive(Debug, PartialEq, Eq)]
pub struct State {
    pub schema_version: u32,
    pub tool_version: String,
    /// What is remembered of repositories, by Git common directory. This is never an inventory
    /// from which repositories are discovered.
    pub repositories: TextMap<RepositoryState>,
}

/// The content of a [`State`].
pub struct StateView {
    pub schema_version: u32,
    pub tool_version: Seq<char>,
    pub repositories: Map<Seq<char>, RepositoryStateView>,
}

impl DeepView for State {
    type V = StateView;

    open spec fn deep_view(&self) -> StateView {
        StateView {
            schema_version: self.schema_version,
            tool_version: self.tool_version@,
            repositories: self.repositories.deep_view(),
        }
    }
}

impl Duplicate for ClassificationState {
    fn duplicate(&self) -> (copy: Self) {
        self.clone()
    }
}

impl Duplicate for RepositoryState {
    fn duplicate(&self) -> (copy: Self) {
        RepositoryState {
            last_successful_fetch_at: text::clone_optional(&self.last_successful_fetch_at),
            last_classifications: self.last_classifications.duplicate(),
        }
    }
}

impl Duplicate for State {
    fn duplicate(&self) -> (copy: Self) {
        State {
            schema_version: self.schema_version,
            tool_version: self.tool_version.clone(),
            repositories: self.repositories.duplicate(),
        }
    }
}

/// The state with which a first run starts.
pub open spec fn default_state() -> StateView {
    StateView {
        schema_version: STATE_SCHEMA_VERSION,
        tool_version: TOOL_VERSION@,
        repositories: Map::empty(),
    }
}

impl Default for State {
    fn default() -> (state: Self)
        ensures
            state.deep_view() == default_state(),
    {
        State {
            schema_version: STATE_SCHEMA_VERSION,
            tool_version: TOOL_VERSION.to_owned(),
            repositories: TextMap::new(),
        }
    }
}

/// Why a state file was not replaced.
#[derive(Debug, PartialEq, Eq)]
pub enum SaveFailure {
    /// The directory could not be made.
    CreateDirectory(String),
    /// The file could not be written.
    Write(String),
}

/// The content of a [`SaveFailure`].
pub enum SaveFailureView {
    CreateDirectory(Seq<char>),
    Write(Seq<char>),
}

impl DeepView for SaveFailure {
    type V = SaveFailureView;

    open spec fn deep_view(&self) -> SaveFailureView {
        match self {
            SaveFailure::CreateDirectory(value) => SaveFailureView::CreateDirectory(value@),
            SaveFailure::Write(value) => SaveFailureView::Write(value@),
        }
    }
}

/// Why there is no state, or it was not saved.
#[derive(Debug, PartialEq, Eq)]
pub enum StateError {
    Read { path: FilePath, source: String },
    Malformed { path: FilePath, source: String },
    UnsupportedVersion { path: FilePath, found: u64, supported: u32 },
    CreateDirectory { path: FilePath, source: String },
    Write { path: FilePath, source: String },
}

/// The content of a [`StateError`].
pub enum StateErrorView {
    Read { path: Seq<u8>, source: Seq<char> },
    Malformed { path: Seq<u8>, source: Seq<char> },
    UnsupportedVersion { path: Seq<u8>, found: u64, supported: u32 },
    CreateDirectory { path: Seq<u8>, source: Seq<char> },
    Write { path: Seq<u8>, source: Seq<char> },
}

impl DeepView for StateError {
    type V = StateErrorView;

    open spec fn deep_view(&self) -> StateErrorView {
        match self {
            StateError::Read { path, source } => StateErrorView::Read {
                path: path@,
                source: source@,
            },
            StateError::Malformed { path, source } => StateErrorView::Malformed {
                path: path@,
                source: source@,
            },
            StateError::UnsupportedVersion {
                path,
                found,
                supported,
            } => StateErrorView::UnsupportedVersion {
                path: path@,
                found: *found,
                supported: *supported,
            },
            StateError::CreateDirectory { path, source } => StateErrorView::CreateDirectory {
                path: path@,
                source: source@,
            },
            StateError::Write { path, source } => StateErrorView::Write {
                path: path@,
                source: source@,
            },
        }
    }
}

/// The message of an error.
pub open spec fn state_message(error: StateErrorView) -> Seq<char> {
    match error {
        StateErrorView::Read { path, source } => "failed to read state at "@ + text::lossy_text(
            path,
        ) + ": "@ + source,
        StateErrorView::Malformed { path, source } => "state at "@ + text::lossy_text(path)
            + " is malformed: "@ + source + "; move it aside and rerun Lop"@,
        StateErrorView::UnsupportedVersion { path, found, supported } => "state at "@
            + text::lossy_text(path) + " uses schema version "@ + text::decimal_text(found as nat)
            + ", but this Lop supports version "@ + text::decimal_text(supported as nat)
            + "; upgrade Lop or move the state file aside"@,
        StateErrorView::CreateDirectory { path, source } => "failed to create state directory "@
            + text::lossy_text(path) + ": "@ + source,
        StateErrorView::Write { path, source } => "failed to write state at "@ + text::lossy_text(
            path,
        ) + ": "@ + source,
    }
}

impl StateError {
    /// The message of the error.
    pub fn message(&self) -> (message: String)
        ensures
            message@ == state_message(self.deep_view()),
    {
        match self {
            StateError::Read { path, source } => {
                let shown = path.display();
                text::concat4("failed to read state at ", shown.as_str(), ": ", source.as_str())
            },
            StateError::Malformed { path, source } => {
                let shown = path.display();
                text::concat5(
                    "state at ",
                    shown.as_str(),
                    " is malformed: ",
                    source.as_str(),
                    "; move it aside and rerun Lop",
                )
            },
            StateError::UnsupportedVersion { path, found, supported } => {
                let shown = path.display();
                let number = text::decimal(*found);
                let newest = text::decimal(*supported as u64);
                let start = text::concat5(
                    "state at ",
                    shown.as_str(),
                    " uses schema version ",
                    number.as_str(),
                    ", but this Lop supports version ",
                );
                text::concat3(
                    start.as_str(),
                    newest.as_str(),
                    "; upgrade Lop or move the state file aside",
                )
            },
            StateError::CreateDirectory { path, source } => {
                let shown = path.display();
                text::concat4(
                    "failed to create state directory ",
                    shown.as_str(),
                    ": ",
                    source.as_str(),
                )
            },
            StateError::Write { path, source } => {
                let shown = path.display();
                text::concat4("failed to write state at ", shown.as_str(), ": ", source.as_str())
            },
        }
    }
}

/// What `serde_json` finds under `key` in the JSON document: why the document is not JSON; or
/// nothing, where it has no such member; or the member as an unsigned number, or why it is none.
pub uninterp spec fn json_unsigned_member(document: Seq<u8>, key: Seq<char>) -> Result<
    Option<Result<u64, Seq<char>>>,
    Seq<char>,
>;

/// The content of what was found under a key.
pub open spec fn member_view(member: Result<Option<Result<u64, String>>, String>) -> Result<
    Option<Result<u64, Seq<char>>>,
    Seq<char>,
> {
    match member {
        Err(error) => Err(error@),
        Ok(None) => Ok(None),
        Ok(Some(Ok(number))) => Ok(Some(Ok(number))),
        Ok(Some(Err(error))) => Ok(Some(Err(error@))),
    }
}

/// Reads a document with `serde_json::from_slice`, looks up a member with `Value::get`, and makes
/// a `u64` of it with `serde_json::from_value`. Errors are handed on as their text. What the
/// document has to look like for each result is not said here.
#[verifier::external_body]
fn unsigned_member(document: &[u8], key: &str) -> (member: Result<
    Option<Result<u64, String>>,
    String,
>)
    ensures
        member_view(member) == json_unsigned_member(document@, key@),
{
    let value: serde_json::Value = match serde_json::from_slice(document) {
        Ok(value) => value,
        Err(error) => return Err(error.to_string()),
    };
    match value.get(key) {
        None => Ok(None),
        Some(member) => Ok(
            Some(serde_json::from_value::<u64>(member.clone()).map_err(|error| error.to_string())),
        ),
    }
}

/// What is to be done with a state document.
#[derive(Debug, PartialEq, Eq)]
pub enum StatePlan {
    /// It is of no use, for the given reason.
    Malformed(String),
    /// It is from before there were versions.
    Unversioned,
    /// It has the current layout.
    Current,
    /// It has a layout that is not known.
    Unsupported(u64),
}

/// The content of a [`StatePlan`].
pub enum StatePlanView {
    Malformed(Seq<char>),
    Unversioned,
    Current,
    Unsupported(u64),
}

impl DeepView for StatePlan {
    type V = StatePlanView;

    open spec fn deep_view(&self) -> StatePlanView {
        match self {
            StatePlan::Malformed(value) => StatePlanView::Malformed(value@),
            StatePlan::Unversioned => StatePlanView::Unversioned,
            StatePlan::Current => StatePlanView::Current,
            StatePlan::Unsupported(value) => StatePlanView::Unsupported(*value),
        }
    }
}

/// What is to be done with a document in which `member` was found as its version.
pub open spec fn state_plan(
    member: Result<Option<Result<u64, Seq<char>>>, Seq<char>>,
) -> StatePlanView {
    match member {
        Err(error) => StatePlanView::Malformed(error),
        Ok(None) => StatePlanView::Unversioned,
        Ok(Some(Err(error))) => StatePlanView::Malformed(error),
        Ok(Some(Ok(version))) => if version == 0 {
            StatePlanView::Unversioned
        } else if version == 1 {
            StatePlanView::Current
        } else {
            StatePlanView::Unsupported(version)
        },
    }
}

/// What is to be done with a document in which `member` was found as its version.
pub fn plan_state(member: Result<Option<Result<u64, String>>, String>) -> (plan: StatePlan)
    ensures
        plan.deep_view() == state_plan(member_view(member)),
{
    match member {
        Err(error) => StatePlan::Malformed(error),
        Ok(None) => StatePlan::Unversioned,
        Ok(Some(Err(error))) => StatePlan::Malformed(error),
        Ok(Some(Ok(version))) => if version == 0 {
            StatePlan::Unversioned
        } else if version == 1 {
            StatePlan::Current
        } else {
            StatePlan::Unsupported(version)
        },
    }
}

/// The contents of the file that a reply tells of.
pub open spec fn file_contents(reply: ReplyView) -> Result<Option<Seq<u8>>, Seq<char>> {
    match reply {
        ReplyView::File(result) => result,
        _ => Err(command::UNEXPECTED_REPLY@),
    }
}

/// The repositories of the state document that a reply tells of.
pub open spec fn state_document(reply: ReplyView) -> Result<
    Map<Seq<char>, RepositoryStateView>,
    Seq<char>,
> {
    match reply {
        ReplyView::StateDocument(result) => result,
        _ => Err(command::UNEXPECTED_REPLY@),
    }
}

/// A state that holds what was remembered of `repositories`, in the current layout.
pub open spec fn adopted(repositories: Map<Seq<char>, RepositoryStateView>) -> StateView {
    StateView {
        schema_version: STATE_SCHEMA_VERSION,
        tool_version: TOOL_VERSION@,
        repositories,
    }
}

/// The reading of a document that has to be decoded.
pub open spec fn decode_flow(
    path: Seq<u8>,
    versioned: bool,
    document: Seq<u8>,
    replies: Seq<ReplyView>,
    at: int,
) -> Flow<Result<StateView, StateErrorView>> {
    if at >= replies.len() {
        Flow::Ask(RequestView::DecodeState { versioned, document })
    } else {
        Flow::Done(
            match state_document(replies[at]) {
                Err(source) => Err(StateErrorView::Malformed { path, source }),
                Ok(repositories) => Ok(adopted(repositories)),
            },
            at + 1,
        )
    }
}

/// The loading of the state at `path`. A missing file stands for the state of a first run; a
/// document without a version, or with version 0, is migrated.
pub open spec fn load_flow(path: Seq<u8>, replies: Seq<ReplyView>, at: int) -> Flow<
    Result<StateView, StateErrorView>,
> {
    if at >= replies.len() {
        Flow::Ask(RequestView::ReadFile(path))
    } else {
        match file_contents(replies[at]) {
            Err(source) => Flow::Done(Err(StateErrorView::Read { path, source }), at + 1),
            Ok(None) => Flow::Done(Ok(default_state()), at + 1),
            Ok(Some(document)) => match state_plan(
                json_unsigned_member(document, "schema_version"@),
            ) {
                StatePlanView::Malformed(source) => Flow::Done(
                    Err(StateErrorView::Malformed { path, source }),
                    at + 1,
                ),
                StatePlanView::Unversioned => decode_flow(path, false, document, replies, at + 1),
                StatePlanView::Current => decode_flow(path, true, document, replies, at + 1),
                StatePlanView::Unsupported(found) => Flow::Done(
                    Err(
                        StateErrorView::UnsupportedVersion {
                            path,
                            found,
                            supported: STATE_SCHEMA_VERSION,
                        },
                    ),
                    at + 1,
                ),
            },
        }
    }
}

/// Why the state was not saved to `path`, as a reply tells it; nothing where it was.
pub open spec fn save_error(path: Seq<u8>, reply: ReplyView) -> Option<StateErrorView> {
    match reply {
        ReplyView::Saved(Ok(_)) => None,
        ReplyView::Saved(Err(SaveFailureView::CreateDirectory(source))) => Some(
            StateErrorView::CreateDirectory { path: crate::lock::directory_of(path), source },
        ),
        ReplyView::Saved(Err(SaveFailureView::Write(source))) => Some(
            StateErrorView::Write { path, source },
        ),
        _ => Some(StateErrorView::Write { path, source: command::UNEXPECTED_REPLY@ }),
    }
}

impl State {
    fn decode(
        path: &FilePath,
        versioned: bool,
        document: &Vec<u8>,
        replies: &Vec<Reply>,
        at: usize,
    ) -> (step:
        Step<Result<State, StateError>>)
        ensures
            flow::step_view(step) == decode_flow(
                path@,
                versioned,
                document@,
                replies.deep_view(),
                at as int,
            ),
    {
        if at >= replies.len() {
            return Step::Ask(
                Request::DecodeState { versioned, document: text::clone_bytes(document) },
            );
        }
        let result = match &replies[at] {
            Reply::StateDocument(Ok(repositories)) => Ok(
                State {
                    schema_version: STATE_SCHEMA_VERSION,
                    tool_version: TOOL_VERSION.to_owned(),
                    repositories: repositories.duplicate(),
                },
            ),
            Reply::StateDocument(Err(source)) => Err(
                StateError::Malformed { path: path.clone(), source: source.clone() },
            ),
            _ => Err(
                StateError::Malformed {
                    path: path.clone(),
                    source: command::UNEXPECTED_REPLY.to_owned(),
                },
            ),
        };
        Step::Done(result, at + 1)
    }

    /// Loads state and migrates supported older layouts. It is an error when the state is
    /// unreadable, malformed, or has a newer layout.
    pub fn load(path: &FilePath, replies: &Vec<Reply>, at: usize) -> (step: Step<
        Result<State, StateError>,
    >)
        ensures
            flow::step_view(step) == load_flow(path@, replies.deep_view(), at as int),
    {
        if at >= replies.len() {
            return Step::Ask(Request::ReadFile(path.clone()));
        }
        let document = match &replies[at] {
            Reply::File(Ok(Some(document))) => document,
            Reply::File(Ok(None)) => return Step::Done(Ok(State::default()), at + 1),
            Reply::File(Err(source)) => return Step::Done(
                Err(StateError::Read { path: path.clone(), source: source.clone() }),
                at + 1,
            ),
            _ => return Step::Done(
                Err(
                    StateError::Read {
                        path: path.clone(),
                        source: command::UNEXPECTED_REPLY.to_owned(),
                    },
                ),
                at + 1,
            ),
        };
        assert(document.deep_view() =~= document@);
        match plan_state(unsigned_member(document.as_slice(), "schema_version")) {
            StatePlan::Malformed(source) => Step::Done(
                Err(StateError::Malformed { path: path.clone(), source }),
                at + 1,
            ),
            StatePlan::Unversioned => State::decode(path, false, document, replies, at + 1),
            StatePlan::Current => State::decode(path, true, document, replies, at + 1),
            StatePlan::Unsupported(found) => Step::Done(
                Err(
                    StateError::UnsupportedVersion {
                        path: path.clone(),
                        found,
                        supported: STATE_SCHEMA_VERSION,
                    },
                ),
                at + 1,
            ),
        }
    }

    /// The request to write the state to `path`.
    pub fn save(&self, path: &FilePath) -> (request: Request)
        ensures
            request.deep_view() == (RequestView::SaveState {
                directory: crate::lock::directory_of(path@),
                path: path@,
                state: self.deep_view(),
            }),
    {
        Request::SaveState {
            directory: crate::lock::containing_directory(path),
            path: path.clone(),
            state: self.duplicate(),
        }
    }

    /// Why the state was not saved to `path`, as `reply` tells it; nothing where it was.
    pub fn saved(path: &FilePath, reply: &Reply) -> (error: Option<StateError>)
        ensures
            error.deep_view() == save_error(path@, reply.deep_view()),
    {
        match reply {
            Reply::Saved(Ok(_)) => None,
            Reply::Saved(Err(SaveFailure::CreateDirectory(source))) => Some(
                StateError::CreateDirectory {
                    path: crate::lock::containing_directory(path),
                    source: source.clone(),
                },
            ),
            Reply::Saved(Err(SaveFailure::Write(source))) => Some(
                StateError::Write { path: path.clone(), source: source.clone() },
            ),
            _ => Some(
                StateError::Write {
                    path: path.clone(),
                    source: command::UNEXPECTED_REPLY.to_owned(),
                },
            ),
        }
    }
}

/// A state that is loaded always has the current layout and names this version of the tool,
/// whatever the document said.
pub proof fn law_loaded_states_are_current(path: Seq<u8>, replies: Seq<ReplyView>, at: int)
    ensures
        load_flow(path, replies, at) matches Flow::Done(Ok(state), _) ==> state.schema_version
            == STATE_SCHEMA_VERSION && state.tool_version == TOOL_VERSION@,
{
}

/// A state that is saved is the state that is loaded next, as far as its file and the reading of
/// documents keep what was written: a document that names the current version, and is read as the
/// repositories of the saved state, gives these repositories back, whichever version of the tool
/// has saved them. A state of the running version comes back as it was.
pub proof fn law_saved_states_load_back(path: Seq<u8>, state: StateView, document: Seq<u8>)
    requires
        state.schema_version == STATE_SCHEMA_VERSION,
        json_unsigned_member(document, "schema_version"@) == Ok::<
            Option<Result<u64, Seq<char>>>,
            Seq<char>,
        >(Some(Ok(STATE_SCHEMA_VERSION as u64))),
    ensures
        load_flow(path, seq![ReplyView::File(Ok(Some(document)))], 0) == Flow::<
            Result<StateView, StateErrorView>,
        >::Ask(RequestView::DecodeState { versioned: true, document }),
        load_flow(
            path,
            seq![
                ReplyView::File(Ok(Some(document))),
                ReplyView::StateDocument(Ok(state.repositories)),
            ],
            0,
        ) == Flow::<Result<StateView, StateErrorView>>::Done(Ok(adopted(state.repositories)), 2),
        adopted(state.repositories) == (StateView { tool_version: TOOL_VERSION@, ..state }),
        adopted(default_state().repositories) == default_state(),
{
}

/// Where there is no state yet, the first one is loaded.
pub proof fn law_missing_states_are_empty(path: Seq<u8>)
    ensures
        load_flow(path, seq![ReplyView::File(Ok(None))], 0) == Flow::<
            Result<StateView, StateErrorView>,
        >::Done(Ok(default_state()), 1),
{
}

/// A state document is read by the version that it names: none and 0 are those from before there
/// were versions, 1 is the current one, and any other is refused under its number. What is not a
/// document, or names something else as its version, is malformed; a file that cannot be read is an
/// error of its own.
pub proof fn law_states_are_read_by_their_version(
    path: Seq<u8>,
    document: Seq<u8>,
    version: u64,
    complaint: Seq<char>,
)
    ensures
        ({
            let member = json_unsigned_member(document, "schema_version"@);
            let step = load_flow(path, seq![ReplyView::File(Ok(Some(document)))], 0);
            &&& member == Ok::<Option<Result<u64, Seq<char>>>, Seq<char>>(None) ==> (step
                matches Flow::Ask(RequestView::DecodeState { versioned, document: asked })
                && !versioned && asked == document)
            &&& member == Ok::<Option<Result<u64, Seq<char>>>, Seq<char>>(Some(Ok(version))) ==> {
                &&& version <= 1 ==> (step matches Flow::Ask(
                    RequestView::DecodeState { versioned, document: asked },
                ) && (versioned <==> version == 1) && asked == document)
                &&& version >= 2 ==> step == Flow::<Result<StateView, StateErrorView>>::Done(
                    Err(StateErrorView::UnsupportedVersion { path, found: version, supported: 1 }),
                    1,
                )
            }
            &&& member == Ok::<Option<Result<u64, Seq<char>>>, Seq<char>>(Some(Err(complaint)))
                || member == Err::<Option<Result<u64, Seq<char>>>, Seq<char>>(complaint) ==> step
                == Flow::<Result<StateView, StateErrorView>>::Done(
                Err(StateErrorView::Malformed { path, source: complaint }),
                1,
            )
        }),
        load_flow(path, Seq::empty(), 0) == Flow::<Result<StateView, StateErrorView>>::Ask(
            RequestView::ReadFile(path),
        ),
        load_flow(path, seq![ReplyView::File(Err(complaint))], 0) == Flow::<
            Result<StateView, StateErrorView>,
        >::Done(Err(StateErrorView::Read { path, source: complaint }), 1),
        default_state().repositories == Map::<Seq<char>, RepositoryStateView>::empty(),
        default_state().schema_version == 1,
        save_error(path, ReplyView::Saved(Ok(()))) is None,
        save_error(path, ReplyView::Saved(Err(SaveFailureView::Write(complaint)))) == Some(
            StateErrorView::Write { path, source: complaint },
        ),
{
}

} // verus!
