//! Closing the workspaces of a candidate.
use crate::command;
use crate::command::{CommandResult, CommandResultView, Reply, ReplyView, Request, RequestView};
use crate::flow;
use crate::flow::{Flow, Step};
use crate::herdr::session;
use crate::herdr::{AcknowledgementDocument, AcknowledgementDocumentView, Coordination};
use crate::herdr::{RetirementError, RetirementErrorView};
use crate::text;
use vstd::prelude::*;

verus! {

/// Whether Herdr acknowledged the closing of a workspace.
pub open spec fn acknowledges(
    document: AcknowledgementDocumentView,
    workspace_id: Seq<char>,
) -> bool {
    document.kind == "ok"@ || (document.kind == "workspace_closed"@ && document.workspace_id
        == Some(workspace_id))
}

fn is_acknowledged(document: &AcknowledgementDocument, workspace_id: &str) -> (result: bool)
    ensures
        result == acknowledges(document.deep_view(), workspace_id@),
{
    text::same_text(document.kind.as_str(), "ok") || (text::same_text(
        document.kind.as_str(),
        "workspace_closed",
    ) && match &document.workspace_id {
        None => false,
        Some(id) => text::same_text(id.as_str(), workspace_id),
    })
}

/// A workspace that was not closed, and why.
pub open spec fn close_failure(workspace_id: Seq<char>, message: Seq<char>) -> Seq<char> {
    "workspace "@ + workspace_id + ": "@ + message
}

/// The closing of the workspaces from number `i` on; every one of them is tried, and those that
/// are not closed are reported together with `failures`.
pub open spec fn retire_flow(
    session: Option<Seq<char>>,
    workspaces: Seq<Seq<char>>,
    i: int,
    failures: Seq<Seq<char>>,
    timeout: u64,
    replies: Seq<ReplyView>,
    at: int,
) -> Flow<Result<(), RetirementErrorView>>
    decreases workspaces.len() - i,
{
    if i >= workspaces.len() {
        Flow::Done(
            if failures.len() == 0 {
                Ok(())
            } else {
                Err(RetirementErrorView { message: text::joined_text(failures, "; "@) })
            },
            at,
        )
    } else {
        let id = workspaces[i];
        match flow::run_flow(session::close_command(session, id, timeout), replies, at) {
            Flow::Ask(request) => Flow::Ask(request),
            Flow::Done(CommandResultView::Exited { code, stdout, stderr }, next) => {
                if !command::succeeded(code) {
                    retire_flow(
                        session,
                        workspaces,
                        i + 1,
                        failures.push(close_failure(id, flow::stderr_text(stderr))),
                        timeout,
                        replies,
                        next,
                    )
                } else if next >= replies.len() {
                    Flow::Ask(RequestView::DecodeAcknowledgement(stdout))
                } else {
                    let closed = replies[next] matches ReplyView::Acknowledgement(Ok(document))
                        && acknowledges(document, id);
                    retire_flow(
                        session,
                        workspaces,
                        i + 1,
                        if closed {
                            failures
                        } else {
                            failures.push(close_failure(id, "malformed command response"@))
                        },
                        timeout,
                        replies,
                        next + 1,
                    )
                }
            },
            Flow::Done(_, next) => retire_flow(
                session,
                workspaces,
                i + 1,
                failures.push(close_failure(id, "client or socket became unavailable"@)),
                timeout,
                replies,
                next,
            ),
        }
    }
}

fn push_failure(failures: &mut Vec<String>, workspace_id: &str, message: &str)
    ensures
        final(failures).deep_view() == old(failures).deep_view().push(
            close_failure(workspace_id@, message@),
        ),
{
    let failure = text::concat4("workspace ", workspace_id, ": ", message);
    text::push_text(failures, failure.as_str());
}

/// Closes Herdr workspaces mapped exclusively to a candidate before Git removal.
///
/// It is an error if any associated workspace cannot be closed or Herdr does not confirm the
/// command with structured output.
pub fn retire_candidate(
    coordination: &Coordination,
    timeout: u64,
    replies: &Vec<Reply>,
    at: usize,
) -> (step: Step<Result<(), RetirementError>>)
    ensures
        flow::step_view(step) == retire_flow(
            coordination.deep_view().session,
            coordination.deep_view().workspaces,
            0,
            Seq::empty(),
            timeout,
            replies.deep_view(),
            at as int,
        ),
{
    let ghost session = coordination.deep_view().session;
    let ghost all = coordination.workspaces.deep_view();
    let ghost goal = retire_flow(
        session,
        all,
        0,
        Seq::empty(),
        timeout,
        replies.deep_view(),
        at as int,
    );
    let mut failures = command::new_texts();
    let mut position: usize = at;
    let mut i: usize = 0;
    while i < coordination.workspaces.len()
        invariant
            i <= coordination.workspaces.len(),
            session == coordination.deep_view().session,
            all == coordination.workspaces.deep_view(),
            goal == retire_flow(
                session,
                all,
                0,
                Seq::empty(),
                timeout,
                replies.deep_view(),
                at as int,
            ),
            goal == retire_flow(
                session,
                all,
                i as int,
                failures.deep_view(),
                timeout,
                replies.deep_view(),
                position as int,
            ),
        decreases coordination.workspaces.len() - i,
    {
        let id = coordination.workspaces[i].as_str();
        assert(all[i as int] == id@);
        match flow::run_step(
            session::new_close_command(&coordination.session, id, timeout),
            replies,
            position,
        ) {
            Step::Ask(request) => return Step::Ask(request),
            Step::Done(CommandResult::Exited { code, stdout, stderr }, next) => {
                if !command::is_success(code) {
                    let message = flow::stderr_message(&stderr);
                    push_failure(&mut failures, id, message.as_str());
                    position = next;
                } else {
                    if next >= replies.len() {
                        return Step::Ask(Request::DecodeAcknowledgement(stdout));
                    }
                    assert(replies.deep_view()[next as int] == replies[next as int].deep_view());
                    let closed = match &replies[next] {
                        Reply::Acknowledgement(Ok(document)) => is_acknowledged(document, id),
                        _ => false,
                    };
                    if !closed {
                        push_failure(&mut failures, id, "malformed command response");
                    }
                    position = next + 1;
                }
            },
            Step::Done(_, next) => {
                push_failure(&mut failures, id, "client or socket became unavailable");
                position = next;
            },
        }
        i += 1;
    }
    if failures.len() == 0 {
        Step::Done(Ok(()), position)
    } else {
        Step::Done(
            Err(RetirementError { message: text::join_texts(&failures, "; ") }),
            position,
        )
    }
}

} // verus!
