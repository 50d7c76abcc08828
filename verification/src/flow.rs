//! Work that goes in steps. A piece of work that needs to know something about its surroundings
//! is a function of the replies that it has had so far: it either asks for one more, or is done.
//! Handing it the same replies again leads to the same place, so whoever carries out the
//! requests only keeps the replies.
use crate::command::{CommandLine, CommandResult, CommandResultView, PathFailure};
use crate::command::{Reply, ReplyView, Request, RequestView};
use crate::filepath::FilePath;
use crate::text;
use vstd::prelude::*;

verus! {

/// Where a piece of work stands: it asks for a reply, or it is done, having used the replies
/// before the given position.
#[derive(Debug, PartialEq, Eq)]
pub enum Step<T> {
    Ask(Request),
    Done(T, usize),
}

/// Where a piece of work stands, as [`Step`] tells it.
pub enum Flow<T> {
    Ask(RequestView),
    Done(T, int),
}

impl<T: DeepView> DeepView for Step<T> {
    type V = Flow<T::V>;

    open spec fn deep_view(&self) -> Flow<T::V> {
        match self {
            Step::Ask(request) => Flow::Ask(request.deep_view()),
            Step::Done(value, at) => Flow::Done(value.deep_view(), *at as int),
        }
    }
}

/// The content of a result.
pub open spec fn result_view<T: DeepView, E: DeepView>(result: Result<T, E>) -> Result<T::V, E::V> {
    match result {
        Ok(value) => Ok(value.deep_view()),
        Err(error) => Err(error.deep_view()),
    }
}

/// Where a piece of work that ends in a result stands.
pub open spec fn step_view<T: DeepView, E: DeepView>(step: Step<Result<T, E>>) -> Flow<
    Result<T::V, E::V>,
> {
    match step {
        Step::Ask(request) => Flow::Ask(request.deep_view()),
        Step::Done(value, at) => Flow::Done(result_view(value), at as int),
    }
}

/// Runs a command: the reply at `at` is its result.
pub open spec fn run_flow(
    command: crate::command::CommandLineView,
    replies: Seq<ReplyView>,
    at: int,
) -> Flow<CommandResultView> {
    if at >= replies.len() {
        Flow::Ask(RequestView::Run(command))
    } else {
        Flow::Done(crate::command::command_result(replies[at]), at + 1)
    }
}

/// Runs a command: the reply at `at` is its result.
pub fn run_step(
    command: CommandLine,
    replies: &Vec<Reply>,
    at: usize,
) -> (step: Step<CommandResult>)
    ensures
        step.deep_view() == run_flow(command.deep_view(), replies.deep_view(), at as int),
        step matches Step::Done(_, next) ==> next == at + 1 <= replies.len(),
{
    if at >= replies.len() {
        Step::Ask(Request::Run(command))
    } else {
        Step::Done(replies[at].command_result(), at + 1)
    }
}

/// Resolves a path to its canonical form: the reply at `at` tells it.
pub open spec fn canonical_flow(path: Seq<u8>, replies: Seq<ReplyView>, at: int) -> Flow<
    Result<Seq<u8>, crate::command::PathFailureView>,
> {
    if at >= replies.len() {
        Flow::Ask(RequestView::Canonicalize(path))
    } else {
        Flow::Done(crate::command::canonical_path(replies[at]), at + 1)
    }
}

/// Resolves a path to its canonical form: the reply at `at` tells it.
pub fn canonical_step(path: &FilePath, replies: &Vec<Reply>, at: usize) -> (step: Step<
    Result<FilePath, PathFailure>,
>)
    ensures
        step_view(step) == canonical_flow(path@, replies.deep_view(), at as int),
        step matches Step::Done(_, next) ==> next == at + 1 <= replies.len(),
{
    if at >= replies.len() {
        Step::Ask(Request::Canonicalize(path.clone()))
    } else {
        Step::Done(replies[at].canonical_path(), at + 1)
    }
}

/// The diagnostic output of a command as one message.
pub open spec fn stderr_text(stderr: Seq<u8>) -> Seq<char> {
    let message = text::trimmed(text::lossy_text(stderr));
    if message.len() == 0 {
        "no diagnostic output"@
    } else {
        message
    }
}

/// The diagnostic output of a command as one message.
pub fn stderr_message(stderr: &Vec<u8>) -> (message: String)
    ensures
        message@ == stderr_text(stderr@),
{
    let message = text::trim(text::lossy(stderr.as_slice()).as_str());
    if text::is_blank(message.as_str()) {
        "no diagnostic output".to_owned()
    } else {
        message
    }
}

/// What comes of a piece of work, with the given replies and at most `more` further ones, in a world
/// that answers every request.
pub open spec fn answered<T>(
    work: spec_fn(Seq<ReplyView>) -> Flow<T>,
    world: spec_fn(RequestView) -> ReplyView,
    replies: Seq<ReplyView>,
    more: nat,
) -> Option<T>
    decreases more,
{
    match work(replies) {
        Flow::Done(value, _) => Some(value),
        Flow::Ask(request) => if more == 0 {
            None
        } else {
            answered(work, world, replies.push(world(request)), (more - 1) as nat)
        },
    }
}

/// A piece of work that is done needs no further reply.
pub(crate) proof fn lemma_answered_done<T>(
    work: spec_fn(Seq<ReplyView>) -> Flow<T>,
    world: spec_fn(RequestView) -> ReplyView,
    replies: Seq<ReplyView>,
    more: nat,
)
    requires
        work(replies) is Done,
    ensures
        answered(work, world, replies, more) == Some(work(replies)->Done_0),
{
}

/// A piece of work that asks for something goes on with the reply.
pub(crate) proof fn lemma_answered_asks<T>(
    work: spec_fn(Seq<ReplyView>) -> Flow<T>,
    world: spec_fn(RequestView) -> ReplyView,
    replies: Seq<ReplyView>,
    more: nat,
    request: RequestView,
)
    requires
        work(replies) == Flow::<T>::Ask(request),
        more > 0,
    ensures
        answered(work, world, replies, more) == answered(
            work,
            world,
            replies.push(world(request)),
            (more - 1) as nat,
        ),
{
}

/// A piece of work that asks for the expected replies, one after the other, ends with the last.
pub(crate) proof fn lemma_answered_all<T>(
    work: spec_fn(Seq<ReplyView>) -> Flow<T>,
    world: spec_fn(RequestView) -> ReplyView,
    expected: Seq<ReplyView>,
    k: int,
)
    requires
        0 <= k <= expected.len(),
        forall|j: int|
            0 <= j < expected.len() ==> ((#[trigger] work(expected.take(j))) matches Flow::Ask(
                request,
            ) && world(request) == expected[j]),
        work(expected) is Done,
    ensures
        answered(work, world, expected.take(k), (expected.len() - k) as nat) == Some(
            work(expected)->Done_0,
        ),
    decreases expected.len() - k,
{
    if k < expected.len() {
        lemma_answered_all(work, world, expected, k + 1);
        assert(work(expected.take(k)) is Ask);
        let request = work(expected.take(k))->Ask_0;
        assert(expected.take(k).push(world(request)) =~= expected.take(k + 1));
    } else {
        assert(expected.take(k) =~= expected);
    }
}

/// What a command said of its failure is told without white space around it, and that it said
/// nothing where it did.
pub proof fn law_diagnostics_are_told(stderr: Seq<u8>)
    ensures
        text::trimmed(text::lossy_text(stderr)).len() > 0 ==> stderr_text(stderr) == text::trimmed(
            text::lossy_text(stderr),
        ),
        text::trimmed(text::lossy_text(stderr)).len() == 0 ==> stderr_text(stderr)
            == "no diagnostic output"@,
{
}

} // verus!
