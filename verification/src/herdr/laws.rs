//! What holds of all coordination with Herdr.
use crate::command;
use crate::command::{CommandResultView, ReplyView, RequestView};
use crate::flow;
use crate::flow::Flow;
use crate::herdr;
use crate::herdr::StaleWorkspaceView;
use crate::herdr::evaluation;
use crate::herdr::retirement;
use crate::herdr::session;
use crate::herdr::session::SnapshotFoundView;
use crate::herdr::stale;
use crate::herdr::{AgentStatus, AgentView, CandidateStatusView, CoordinationView};
use crate::herdr::{InspectionErrorView, PaneView, RetirementErrorView, SnapshotView};
use crate::herdr::StaleWorkspaceStatusView;
use crate::text;
use vstd::prelude::*;

verus! {

/// Whether an agent with this status leaves its checkout alone.
pub open spec fn quiet(status: AgentStatus) -> bool {
    status is Idle || status is Done
}

proof fn lemma_scan_panes(
    table: Seq<(Seq<u8>, Seq<u8>)>,
    snapshot: SnapshotView,
    candidate: Seq<u8>,
    described: Seq<Seq<char>>,
    i: int,
    ids: Seq<Seq<char>>,
)
    requires
        0 <= i,
    ensures
        evaluation::scan_panes(table, snapshot, candidate, described, i, ids) matches Ok(Err(veto)) ==> veto
            is FocusedPane || veto is ActiveAgent,
        evaluation::scan_panes(table, snapshot, candidate, described, i, ids) matches Ok(Ok(found)) ==> {
            &&& forall|id: Seq<char>| #[trigger] ids.contains(id) ==> found.contains(id)
            &&& forall|k: int|
                i <= k < snapshot.panes.len() && evaluation::candidate_pane(
                    table,
                    #[trigger] snapshot.panes[k],
                    candidate,
                    described,
                ) ==> {
                    &&& !evaluation::pane_focused(snapshot.panes[k], snapshot.focused_pane_id)
                    &&& snapshot.panes[k].agent is Some ==> quiet(snapshot.panes[k].status)
                    &&& found.contains(snapshot.panes[k].id)
                }
        },
    decreases snapshot.panes.len() - i,
{
    if i < snapshot.panes.len() {
        let pane = snapshot.panes[i];
        if !evaluation::candidate_pane(table, pane, candidate, described) {
            lemma_scan_panes(table, snapshot, candidate, described, i + 1, ids);
        } else {
            let more = ids.push(pane.id);
            lemma_scan_panes(table, snapshot, candidate, described, i + 1, more);
            assert(more[ids.len() as int] == pane.id);
            assert(more.contains(pane.id));
            assert forall|id: Seq<char>| #[trigger] ids.contains(id) implies more.contains(id) by {
                let k = choose|k: int| 0 <= k < ids.len() && ids[k] == id;
                assert(more[k] == id);
            }
        }
    }
}

proof fn lemma_scan_agents(
    table: Seq<(Seq<u8>, Seq<u8>)>,
    agents: Seq<AgentView>,
    candidate: Seq<u8>,
    described: Seq<Seq<char>>,
    panes: Seq<Seq<char>>,
    i: int,
)
    requires
        0 <= i,
    ensures
        evaluation::scan_agents(table, agents, candidate, described, panes, i) matches Ok(Some(veto)) ==> veto
            is ActiveAgent,
        evaluation::scan_agents(table, agents, candidate, described, panes, i) == Ok::<
            Option<CandidateStatusView>,
            InspectionErrorView,
        >(None) ==> forall|k: int|
            i <= k < agents.len() && evaluation::candidate_agent(
                table,
                #[trigger] agents[k],
                candidate,
                described,
                panes,
            ) ==> quiet(agents[k].status),
    decreases agents.len() - i,
{
    if i < agents.len() {
        lemma_scan_agents(table, agents, candidate, described, panes, i + 1);
    }
}

/// A checkout is clear only where no pane of it is focused, every agent in its panes is idle or
/// done, and so is every agent that works in it, belongs to one of its panes, or belongs to one
/// of its workspaces.
pub proof fn law_clear_means_quiet(
    table: Seq<(Seq<u8>, Seq<u8>)>,
    snapshot: SnapshotView,
    candidate: Seq<u8>,
    session: Option<Seq<char>>,
    coordination: CoordinationView,
)
    requires
        evaluation::snapshot_status(table, snapshot, candidate, session) == Ok::<
            CandidateStatusView,
            InspectionErrorView,
        >(CandidateStatusView::Clear(coordination)),
    ensures
        forall|k: int|
            0 <= k < snapshot.panes.len() && evaluation::pane_within(
                table,
                #[trigger] snapshot.panes[k],
                candidate,
            ) ==> {
                &&& !evaluation::pane_focused(snapshot.panes[k], snapshot.focused_pane_id)
                &&& snapshot.panes[k].agent is Some ==> quiet(snapshot.panes[k].status)
                &&& coordination.panes.contains(snapshot.panes[k].id)
            },
        forall|k: int|
            0 <= k < snapshot.agents.len() && evaluation::candidate_agent(
                table,
                #[trigger] snapshot.agents[k],
                candidate,
                evaluation::candidate_workspaces(table, snapshot.workspaces, candidate),
                coordination.panes,
            ) ==> quiet(snapshot.agents[k].status),
{
    let described = evaluation::candidate_workspaces(table, snapshot.workspaces, candidate);
    lemma_scan_panes(table, snapshot, candidate, described, 0, Seq::empty());
    if let Ok(Ok(panes)) = evaluation::scan_panes(
        table,
        snapshot,
        candidate,
        described,
        0,
        Seq::empty(),
    ) {
        lemma_scan_agents(table, snapshot.agents, candidate, described, panes, 0);
    }
    assert forall|k: int|
        0 <= k < snapshot.panes.len() && evaluation::pane_within(
            table,
            #[trigger] snapshot.panes[k],
            candidate,
        ) implies evaluation::candidate_pane(table, snapshot.panes[k], candidate, described) by {}
}

proof fn lemma_first_lost_pane(panes: Seq<PaneView>, id: Seq<char>, i: int)
    requires
        0 <= i,
    ensures
        evaluation::first_lost_pane(panes, id, i) is None ==> forall|k: int|
            i <= k < panes.len() && (#[trigger] panes[k]).workspace_id == id ==> evaluation::located(panes[k]),
    decreases panes.len() - i,
{
    if i < panes.len() {
        lemma_first_lost_pane(panes, id, i + 1);
    }
}

proof fn lemma_first_other_pane(
    table: Seq<(Seq<u8>, Seq<u8>)>,
    panes: Seq<PaneView>,
    id: Seq<char>,
    candidate: Seq<u8>,
    i: int,
)
    requires
        0 <= i,
    ensures
        evaluation::first_other_pane(table, panes, id, candidate, i) is None ==> forall|k: int|
            i <= k < panes.len() && (#[trigger] panes[k]).workspace_id == id ==> evaluation::pane_within(
                table,
                panes[k],
                candidate,
            ),
    decreases panes.len() - i,
{
    if i < panes.len() {
        lemma_first_other_pane(table, panes, id, candidate, i + 1);
    }
}

proof fn lemma_workspaces_error(
    table: Seq<(Seq<u8>, Seq<u8>)>,
    panes: Seq<PaneView>,
    ids: Seq<Seq<char>>,
    described: Seq<Seq<char>>,
    candidate: Seq<u8>,
    i: int,
)
    requires
        0 <= i,
    ensures
        evaluation::workspaces_error(table, panes, ids, described, candidate, i) is None ==> forall|k: int|
            i <= k < ids.len() ==> evaluation::workspace_error(
                table,
                panes,
                #[trigger] ids[k],
                candidate,
                described.contains(ids[k]),
            ) is None,
    decreases ids.len() - i,
{
    if i < ids.len() {
        lemma_workspaces_error(table, panes, ids, described, candidate, i + 1);
    }
}

proof fn lemma_empty_error(panes: Seq<PaneView>, ids: Seq<Seq<char>>, i: int)
    requires
        0 <= i,
    ensures
        evaluation::empty_error(panes, ids, i) is None ==> forall|k: int|
            i <= k < ids.len() ==> evaluation::pane_workspaces(panes).contains(#[trigger] ids[k]),
    decreases ids.len() - i,
{
    if i < ids.len() {
        lemma_empty_error(panes, ids, i + 1);
    }
}

proof fn lemma_cleanup_workspaces(
    table: Seq<(Seq<u8>, Seq<u8>)>,
    panes: Seq<PaneView>,
    ids: Seq<Seq<char>>,
    candidate: Seq<u8>,
    i: int,
    found: Seq<Seq<char>>,
    id: Seq<char>,
)
    requires
        0 <= i,
    ensures
        evaluation::cleanup_workspaces(table, panes, ids, candidate, i, found).contains(id) ==> found.contains(
            id,
        ) || (ids.contains(id) && evaluation::has_candidate_pane(table, panes, id, candidate)
            && evaluation::all_panes_within(table, panes, id, candidate)),
    decreases ids.len() - i,
{
    if i < ids.len() {
        if evaluation::has_candidate_pane(table, panes, ids[i], candidate) && evaluation::all_panes_within(
            table,
            panes,
            ids[i],
            candidate,
        ) {
            text::lemma_insert_text(found, ids[i], id);
            lemma_cleanup_workspaces(
                table,
                panes,
                ids,
                candidate,
                i + 1,
                text::insert_text(found, ids[i]),
                id,
            );
        } else {
            lemma_cleanup_workspaces(table, panes, ids, candidate, i + 1, found, id);
        }
    }
}

pub(crate) proof fn lemma_pane_workspaces(panes: Seq<PaneView>, id: Seq<char>)
    ensures
        evaluation::pane_workspaces(panes).contains(id) <==> exists|k: int|
            0 <= k < panes.len() && (#[trigger] panes[k]).workspace_id == id,
    decreases panes.len(),
{
    if panes.len() > 0 {
        let shorter = panes.drop_last();
        lemma_pane_workspaces(shorter, id);
        text::lemma_insert_text(
            evaluation::pane_workspaces(shorter),
            panes.last().workspace_id,
            id,
        );
        if exists|k: int| 0 <= k < shorter.len() && (#[trigger] shorter[k]).workspace_id == id {
            let k = choose|k: int| 0 <= k < shorter.len() && (#[trigger] shorter[k]).workspace_id
                == id;
            assert(panes[k].workspace_id == id);
        }
        if exists|k: int| 0 <= k < panes.len() && (#[trigger] panes[k]).workspace_id == id {
            let k = choose|k: int| 0 <= k < panes.len() && (#[trigger] panes[k]).workspace_id
                == id;
            if k < shorter.len() {
                assert(shorter[k].workspace_id == id);
            }
        }
        if panes.last().workspace_id == id {
            assert(panes[panes.len() - 1].workspace_id == id);
        }
    }
}

/// Only workspaces that belong to the checkout alone are retired: each of them has a pane, and
/// every pane of it is in the checkout.
pub proof fn law_only_exclusive_workspaces_are_retired(
    table: Seq<(Seq<u8>, Seq<u8>)>,
    snapshot: SnapshotView,
    candidate: Seq<u8>,
    session: Option<Seq<char>>,
    coordination: CoordinationView,
    id: Seq<char>,
)
    requires
        evaluation::snapshot_status(table, snapshot, candidate, session) == Ok::<
            CandidateStatusView,
            InspectionErrorView,
        >(CandidateStatusView::Clear(coordination)),
        coordination.workspaces.contains(id),
    ensures
        exists|k: int|
            0 <= k < snapshot.panes.len() && (#[trigger] snapshot.panes[k]).workspace_id == id,
        evaluation::all_panes_within(table, snapshot.panes, id, candidate),
{
    let described = evaluation::candidate_workspaces(table, snapshot.workspaces, candidate);
    let ids = evaluation::pane_workspaces(snapshot.panes);
    lemma_cleanup_workspaces(table, snapshot.panes, ids, candidate, 0, described, id);
    lemma_empty_error(snapshot.panes, described, 0);
    lemma_workspaces_error(table, snapshot.panes, ids, described, candidate, 0);
    lemma_pane_workspaces(snapshot.panes, id);
    lemma_scan_panes(table, snapshot, candidate, described, 0, Seq::empty());
    if let Ok(Ok(panes)) = evaluation::scan_panes(
        table,
        snapshot,
        candidate,
        described,
        0,
        Seq::empty(),
    ) {
        lemma_scan_agents(table, snapshot.agents, candidate, described, panes, 0);
    }
    if described.contains(id) {
        let k = choose|k: int| 0 <= k < described.len() && described[k] == id;
        assert(ids.contains(described[k]));
        let j = choose|j: int| 0 <= j < ids.len() && ids[j] == id;
        assert(evaluation::workspace_error(
            table,
            snapshot.panes,
            ids[j],
            candidate,
            described.contains(ids[j]),
        ) is None);
        lemma_first_other_pane(table, snapshot.panes, id, candidate, 0);
    }
}

proof fn lemma_retire(
    session: Option<Seq<char>>,
    workspaces: Seq<Seq<char>>,
    i: int,
    failures: Seq<Seq<char>>,
    timeout: u64,
    replies: Seq<ReplyView>,
    at: int,
)
    requires
        0 <= i,
    ensures
        retirement::retire_flow(session, workspaces, i, failures, timeout, replies, at) matches Flow::Ask(
            request,
        ) ==> request is DecodeAcknowledgement || exists|k: int|
            0 <= k < workspaces.len() && request == RequestView::Run(
                #[trigger] session::close_command(session, workspaces[k], timeout),
            ),
        failures.len() > 0 ==> !(retirement::retire_flow(
            session,
            workspaces,
            i,
            failures,
            timeout,
            replies,
            at,
        ) matches Flow::Done(Ok(()), _)),
        retirement::retire_flow(session, workspaces, i, failures, timeout, replies, at) matches Flow::Done(
            _,
            next,
        ) ==> at <= next,
    decreases workspaces.len() - i,
{
    if i < workspaces.len() {
        let id = workspaces[i];
        match flow::run_flow(session::close_command(session, id, timeout), replies, at) {
            Flow::Ask(_) => {
                assert(RequestView::Run(session::close_command(session, workspaces[i], timeout))
                    == RequestView::Run(session::close_command(session, id, timeout)));
            },
            Flow::Done(CommandResultView::Exited { code, stdout, stderr }, next) => {
                if !command::succeeded(code) {
                    lemma_retire(
                        session,
                        workspaces,
                        i + 1,
                        failures.push(retirement::close_failure(id, flow::stderr_text(stderr))),
                        timeout,
                        replies,
                        next,
                    );
                } else if next < replies.len() {
                    let closed = replies[next] matches ReplyView::Acknowledgement(Ok(document))
                        && retirement::acknowledges(document, id);
                    lemma_retire(
                        session,
                        workspaces,
                        i + 1,
                        if closed {
                            failures
                        } else {
                            failures.push(retirement::close_failure(id, "malformed command response"@))
                        },
                        timeout,
                        replies,
                        next + 1,
                    );
                }
            },
            Flow::Done(_, next) => lemma_retire(
                session,
                workspaces,
                i + 1,
                failures.push(retirement::close_failure(id, "client or socket became unavailable"@)),
                timeout,
                replies,
                next,
            ),
        }
    }
}

/// A retirement asks for nothing but the closing of the workspaces that it was given, and the
/// reading of Herdr's acknowledgements.
pub proof fn law_retirement_closes_nothing_else(
    coordination: CoordinationView,
    timeout: u64,
    replies: Seq<ReplyView>,
    at: int,
)
    ensures
        retirement::retire_flow(
            coordination.session,
            coordination.workspaces,
            0,
            Seq::empty(),
            timeout,
            replies,
            at,
        ) matches Flow::Ask(request) ==> request is DecodeAcknowledgement || exists|k: int|
            0 <= k < coordination.workspaces.len() && request == RequestView::Run(
                #[trigger] session::close_command(
                    coordination.session,
                    coordination.workspaces[k],
                    timeout,
                ),
            ),
{
    lemma_retire(
        coordination.session,
        coordination.workspaces,
        0,
        Seq::empty(),
        timeout,
        replies,
        at,
    );
}

/// Closing workspaces goes forward through the replies.
pub(crate) proof fn lemma_retirement_goes_forward(
    coordination: CoordinationView,
    timeout: u64,
    replies: Seq<ReplyView>,
    at: int,
)
    ensures
        retirement::retire_flow(
            coordination.session,
            coordination.workspaces,
            0,
            Seq::empty(),
            timeout,
            replies,
            at,
        ) matches Flow::Done(_, next) ==> at <= next,
{
    lemma_retire(
        coordination.session,
        coordination.workspaces,
        0,
        Seq::empty(),
        timeout,
        replies,
        at,
    );
}

/// The attempt to close one workspace, and the complaint where it was not closed.
pub open spec fn attempt_flow(
    session: Option<Seq<char>>,
    workspace: Seq<char>,
    timeout: u64,
    replies: Seq<ReplyView>,
    at: int,
) -> Flow<Option<Seq<char>>> {
    match flow::run_flow(session::close_command(session, workspace, timeout), replies, at) {
        Flow::Ask(request) => Flow::Ask(request),
        Flow::Done(CommandResultView::Exited { code, stdout, stderr }, next) => {
            if !command::succeeded(code) {
                Flow::Done(
                    Some(retirement::close_failure(workspace, flow::stderr_text(stderr))),
                    next,
                )
            } else if next >= replies.len() {
                Flow::Ask(RequestView::DecodeAcknowledgement(stdout))
            } else if replies[next] matches ReplyView::Acknowledgement(Ok(document))
                && retirement::acknowledges(document, workspace) {
                Flow::Done(None, next + 1)
            } else {
                Flow::Done(
                    Some(retirement::close_failure(workspace, "malformed command response"@)),
                    next + 1,
                )
            }
        },
        Flow::Done(_, next) => Flow::Done(
            Some(retirement::close_failure(workspace, "client or socket became unavailable"@)),
            next,
        ),
    }
}

/// The attempts to close the workspaces, one for each, one after another, whatever came of those
/// before.
pub open spec fn attempts_flow(
    session: Option<Seq<char>>,
    workspaces: Seq<Seq<char>>,
    timeout: u64,
    replies: Seq<ReplyView>,
    at: int,
) -> Flow<Seq<Option<Seq<char>>>>
    decreases workspaces.len(),
{
    if workspaces.len() == 0 {
        Flow::Done(Seq::empty(), at)
    } else {
        match attempts_flow(session, workspaces.drop_last(), timeout, replies, at) {
            Flow::Ask(request) => Flow::Ask(request),
            Flow::Done(outcomes, next) => match attempt_flow(
                session,
                workspaces.last(),
                timeout,
                replies,
                next,
            ) {
                Flow::Ask(request) => Flow::Ask(request),
                Flow::Done(outcome, next) => Flow::Done(outcomes.push(outcome), next),
            },
        }
    }
}

/// The complaints among the outcomes, in order.
pub open spec fn complaints(outcomes: Seq<Option<Seq<char>>>) -> Seq<Seq<char>>
    decreases outcomes.len(),
{
    if outcomes.len() == 0 {
        Seq::empty()
    } else {
        match outcomes.last() {
            None => complaints(outcomes.drop_last()),
            Some(complaint) => complaints(outcomes.drop_last()).push(complaint),
        }
    }
}

/// What closing workspaces gives, of the outcomes of the attempts.
pub open spec fn retired(outcomes: Flow<Seq<Option<Seq<char>>>>) -> Flow<
    Result<(), RetirementErrorView>,
> {
    match outcomes {
        Flow::Ask(request) => Flow::Ask(request),
        Flow::Done(outcomes, next) => Flow::Done(
            if complaints(outcomes).len() == 0 {
                Ok(())
            } else {
                Err(
                    RetirementErrorView {
                        message: text::joined_text(complaints(outcomes), "; "@),
                    },
                )
            },
            next,
        ),
    }
}

proof fn lemma_attempts_ask(
    session: Option<Seq<char>>,
    workspaces: Seq<Seq<char>>,
    i: int,
    timeout: u64,
    replies: Seq<ReplyView>,
    at: int,
)
    requires
        0 <= i <= workspaces.len(),
        attempts_flow(session, workspaces.take(i), timeout, replies, at) is Ask,
    ensures
        attempts_flow(session, workspaces, timeout, replies, at) == attempts_flow(
            session,
            workspaces.take(i),
            timeout,
            replies,
            at,
        ),
    decreases workspaces.len() - i,
{
    if i < workspaces.len() {
        assert(workspaces.take(i + 1).drop_last() =~= workspaces.take(i));
        lemma_attempts_ask(session, workspaces, i + 1, timeout, replies, at);
    } else {
        assert(workspaces.take(i) =~= workspaces);
    }
}

proof fn lemma_attempts(
    session: Option<Seq<char>>,
    workspaces: Seq<Seq<char>>,
    i: int,
    outcomes: Seq<Option<Seq<char>>>,
    timeout: u64,
    replies: Seq<ReplyView>,
    at: int,
    start: int,
)
    requires
        0 <= i <= workspaces.len(),
        attempts_flow(session, workspaces.take(i), timeout, replies, start) == Flow::Done(
            outcomes,
            at,
        ),
    ensures
        retirement::retire_flow(
            session,
            workspaces,
            i,
            complaints(outcomes),
            timeout,
            replies,
            at,
        ) == retired(attempts_flow(session, workspaces, timeout, replies, start)),
    decreases workspaces.len() - i,
{
    if i < workspaces.len() {
        assert(workspaces.take(i + 1).drop_last() =~= workspaces.take(i));
        assert(workspaces.take(i + 1).last() == workspaces[i]);
        match attempt_flow(session, workspaces[i], timeout, replies, at) {
            Flow::Ask(_) => lemma_attempts_ask(
                session,
                workspaces,
                i + 1,
                timeout,
                replies,
                start,
            ),
            Flow::Done(outcome, next) => {
                assert(outcomes.push(outcome).drop_last() =~= outcomes);
                lemma_attempts(
                    session,
                    workspaces,
                    i + 1,
                    outcomes.push(outcome),
                    timeout,
                    replies,
                    next,
                    start,
                );
            },
        }
    } else {
        assert(workspaces.take(i) =~= workspaces);
    }
}

/// Every workspace is tried once, in order, also after one that was not closed. Closing them
/// succeeds exactly when every one was closed; otherwise the error joins the complaint of every one
/// that was not, in order.
pub proof fn law_every_workspace_is_tried(
    coordination: CoordinationView,
    timeout: u64,
    replies: Seq<ReplyView>,
    at: int,
)
    ensures
        retirement::retire_flow(
            coordination.session,
            coordination.workspaces,
            0,
            Seq::empty(),
            timeout,
            replies,
            at,
        ) == retired(
            attempts_flow(
                coordination.session,
                coordination.workspaces,
                timeout,
                replies,
                at,
            ),
        ),
        attempts_flow(
            coordination.session,
            coordination.workspaces,
            timeout,
            replies,
            at,
        ) matches Flow::Done(outcomes, _) ==> outcomes.len() == coordination.workspaces.len() && (
        complaints(outcomes).len() == 0 <==> forall|k: int|
            0 <= k < outcomes.len() ==> #[trigger] outcomes[k] is None),
{
    assert(coordination.workspaces.take(0) =~= Seq::<Seq<char>>::empty());
    assert(complaints(Seq::empty()) =~= Seq::<Seq<char>>::empty());
    lemma_attempts(
        coordination.session,
        coordination.workspaces,
        0,
        Seq::empty(),
        timeout,
        replies,
        at,
        at,
    );
    lemma_attempts_counted(
        coordination.session,
        coordination.workspaces,
        timeout,
        replies,
        at,
    );
    if let Flow::Done(outcomes, _) = attempts_flow(
        coordination.session,
        coordination.workspaces,
        timeout,
        replies,
        at,
    ) {
        lemma_complaints(outcomes);
    }
}

proof fn lemma_attempts_counted(
    session: Option<Seq<char>>,
    workspaces: Seq<Seq<char>>,
    timeout: u64,
    replies: Seq<ReplyView>,
    at: int,
)
    ensures
        attempts_flow(session, workspaces, timeout, replies, at) matches Flow::Done(outcomes, _)
            ==> outcomes.len() == workspaces.len(),
    decreases workspaces.len(),
{
    if workspaces.len() > 0 {
        lemma_attempts_counted(session, workspaces.drop_last(), timeout, replies, at);
    }
}

proof fn lemma_complaints(outcomes: Seq<Option<Seq<char>>>)
    ensures
        complaints(outcomes).len() == 0 <==> forall|k: int|
            0 <= k < outcomes.len() ==> #[trigger] outcomes[k] is None,
    decreases outcomes.len(),
{
    if outcomes.len() > 0 {
        let before = outcomes.drop_last();
        lemma_complaints(before);
        assert forall|k: int| 0 <= k < before.len() implies #[trigger] before[k] == outcomes[k] by {}
        if complaints(outcomes).len() == 0 {
            assert forall|k: int| 0 <= k < outcomes.len() implies #[trigger] outcomes[k] is None by {
                if k < before.len() {
                    assert(before[k] is None);
                }
            }
        } else if complaints(before).len() != 0 {
            let k = choose|k: int| 0 <= k < before.len() && !(#[trigger] before[k] is None);
            assert(!(outcomes[k] is None));
        } else {
            assert(!(outcomes[outcomes.len() - 1] is None));
        }
    }
}

/// Whether a request only looks at Herdr's state and at paths.
pub open spec fn only_looks_at_herdr(request: RequestView) -> bool {
    match request {
        RequestView::Run(line) => line.program == "herdr"@ && (line.arguments.len() == 2
            || line.arguments.len() == 3 || line.arguments.len() == 4 || line.arguments.len() == 6)
            && looks_by_name(line.arguments),
        RequestView::Resolve(_) => true,
        RequestView::Exists(_) => true,
        RequestView::DecodeSessions(_) => true,
        RequestView::DecodeSnapshot(_) => true,
        RequestView::DecodeProcessInfo(_) => true,
        _ => false,
    }
}

/// Whether arguments, with or without a session before them, make Herdr's client only look.
pub open spec fn looks_by_name(arguments: Seq<Seq<char>>) -> bool {
    ||| arguments == seq!["session"@, "list"@, "--json"@]
    ||| arguments.len() >= 2 && arguments[arguments.len() - 2] == "api"@ && arguments.last()
        == "snapshot"@
    ||| arguments.len() >= 4 && arguments[arguments.len() - 4] == "pane"@
        && arguments[arguments.len() - 3] == "process-info"@
}

proof fn lemma_processes_look(
    session: Option<Seq<char>>,
    panes: Seq<Seq<char>>,
    i: int,
    processes: Seq<u32>,
    timeout: u64,
    replies: Seq<ReplyView>,
    at: int,
)
    requires
        0 <= i,
    ensures
        session::processes_flow(session, panes, i, processes, timeout, replies, at) matches Flow::Ask(
            request,
        ) ==> only_looks_at_herdr(request),
        session::processes_flow(session, panes, i, processes, timeout, replies, at) matches Flow::Done(
            _,
            next,
        ) ==> at <= next,
    decreases panes.len() - i,
{
    if i < panes.len() {
        match flow::run_flow(session::process_command(session, panes[i], timeout), replies, at) {
            Flow::Done(CommandResultView::Exited { code, stdout, stderr }, next) => {
                if command::succeeded(code) && next < replies.len() {
                    if let ReplyView::ProcessInfo(Ok(document)) = replies[next] {
                        if let Ok(more) = session::pane_processes(document, panes[i], processes) {
                            lemma_processes_look(
                                session,
                                panes,
                                i + 1,
                                more,
                                timeout,
                                replies,
                                next + 1,
                            );
                        }
                    }
                }
            },
            _ => {},
        }
    }
}

/// Looking for what Herdr has against a removal changes nothing: every request only looks.
pub proof fn law_candidate_inspection_only_looks(
    candidate: Seq<u8>,
    timeout: u64,
    replies: Seq<ReplyView>,
    at: int,
)
    ensures
        herdr::inspect_candidate_flow(candidate, timeout, replies, at) matches Flow::Ask(request)
            ==> only_looks_at_herdr(request),
{
    if let Flow::Done(SnapshotFoundView::Found(session, snapshot), next) = session::snapshot_flow(
        timeout,
        replies,
        at,
    ) {
        if next < replies.len() {
            if let Ok(CandidateStatusView::Clear(coordination)) = evaluation::snapshot_status(
                session::resolved_table(replies[next]),
                snapshot,
                candidate,
                session,
            ) {
                lemma_processes_look(
                    coordination.session,
                    coordination.panes,
                    0,
                    Seq::empty(),
                    timeout,
                    replies,
                    next + 1,
                );
            }
        }
    }
}

/// A look for what Herdr has against a removal goes forward through the replies.
pub(crate) proof fn lemma_candidate_inspection_goes_forward(
    candidate: Seq<u8>,
    timeout: u64,
    replies: Seq<ReplyView>,
    at: int,
)
    ensures
        herdr::inspect_candidate_flow(candidate, timeout, replies, at) matches Flow::Done(_, next)
            ==> at <= next,
{
    if let Flow::Done(SnapshotFoundView::Found(session, snapshot), next) = session::snapshot_flow(
        timeout,
        replies,
        at,
    ) {
        if next < replies.len() {
            if let Ok(CandidateStatusView::Clear(coordination)) = evaluation::snapshot_status(
                session::resolved_table(replies[next]),
                snapshot,
                candidate,
                session,
            ) {
                lemma_processes_look(
                    coordination.session,
                    coordination.panes,
                    0,
                    Seq::empty(),
                    timeout,
                    replies,
                    next + 1,
                );
            }
        }
    }
}

proof fn lemma_stale_looks(
    table: Seq<(Seq<u8>, Seq<u8>)>,
    snapshot: SnapshotView,
    session: Option<Seq<char>>,
    git_common_directory: Seq<u8>,
    inventory: Seq<Seq<u8>>,
    i: int,
    found: Seq<StaleWorkspaceView>,
    timeout: u64,
    replies: Seq<ReplyView>,
    at: int,
)
    requires
        0 <= i,
        forall|k: int| 0 <= k < found.len() ==> !((#[trigger] found[k]).status is Unavailable),
    ensures
        stale::stale_flow(
            table,
            snapshot,
            session,
            git_common_directory,
            inventory,
            i,
            found,
            timeout,
            replies,
            at,
        ) matches Flow::Ask(request) ==> only_looks_at_herdr(request),
        stale::stale_flow(
            table,
            snapshot,
            session,
            git_common_directory,
            inventory,
            i,
            found,
            timeout,
            replies,
            at,
        ) matches Flow::Done(Ok(StaleWorkspaceStatusView::Inspected(stale)), _) ==> forall|k: int|
            0 <= k < stale.len() ==> !((#[trigger] stale[k]).status is Unavailable),
    decreases snapshot.workspaces.len() - i,
{
    if i < snapshot.workspaces.len() {
        match snapshot.workspaces[i].worktree {
            Some(worktree) if stale::unlisted(table, worktree, git_common_directory, inventory) => {
                if at < replies.len() {
                    if stale::said_to_exist(replies[at]) {
                        lemma_stale_looks(
                            table,
                            snapshot,
                            session,
                            git_common_directory,
                            inventory,
                            i + 1,
                            found,
                            timeout,
                            replies,
                            at + 1,
                        );
                    } else {
                        let id = snapshot.workspaces[i].workspace_id;
                        lemma_stale_status(
                            table,
                            snapshot,
                            id,
                            worktree.checkout_path,
                            git_common_directory,
                            0,
                            Seq::empty(),
                        );
                        lemma_stale_agents(snapshot.agents, id, 0);
                        match stale::stale_status(
                            table,
                            snapshot,
                            id,
                            worktree.checkout_path,
                            git_common_directory,
                            session,
                        ) {
                            Err(_) => {},
                            Ok(status) => {
                                if let CandidateStatusView::Clear(coordination) = status {
                                    lemma_processes_look(
                                        coordination.session,
                                        coordination.panes,
                                        0,
                                        Seq::empty(),
                                        timeout,
                                        replies,
                                        at + 1,
                                    );
                                }
                                if let Flow::Done(Ok(status), next) = session::attribute_flow(
                                    status,
                                    timeout,
                                    replies,
                                    at + 1,
                                ) {
                                    let more = found.push(
                                        StaleWorkspaceView {
                                            checkout_path: worktree.checkout_path,
                                            status,
                                        },
                                    );
                                    assert forall|k: int| 0 <= k < more.len() implies !((
                                    #[trigger] more[k]).status is Unavailable) by {
                                        if k < found.len() {
                                            assert(more[k] == found[k]);
                                        }
                                    }
                                    lemma_stale_looks(
                                        table,
                                        snapshot,
                                        session,
                                        git_common_directory,
                                        inventory,
                                        i + 1,
                                        more,
                                        timeout,
                                        replies,
                                        next,
                                    );
                                }
                            },
                        }
                    }
                }
            },
            _ => lemma_stale_looks(
                table,
                snapshot,
                session,
                git_common_directory,
                inventory,
                i + 1,
                found,
                timeout,
                replies,
                at,
            ),
        }
    }
}

proof fn lemma_stale_status(
    table: Seq<(Seq<u8>, Seq<u8>)>,
    snapshot: SnapshotView,
    id: Seq<char>,
    checkout: Seq<u8>,
    git_common_directory: Seq<u8>,
    i: int,
    ids: Seq<Seq<char>>,
)
    requires
        0 <= i,
    ensures
        stale::scan_stale_panes(table, snapshot, id, checkout, git_common_directory, i, ids) matches Ok(
            Err(veto),
        ) ==> veto is FocusedPane || veto is ActiveAgent,
        stale::scan_stale_panes(table, snapshot, id, checkout, git_common_directory, i, ids) matches Ok(
            Ok(_),
        ) ==> forall|k: int|
            i <= k < snapshot.panes.len() && (#[trigger] snapshot.panes[k]).workspace_id == id
                ==> {
                &&& !evaluation::pane_focused(snapshot.panes[k], snapshot.focused_pane_id)
                &&& stale::pane_belongs(table, snapshot.panes[k], checkout, git_common_directory)
                &&& snapshot.panes[k].agent is Some ==> quiet(snapshot.panes[k].status)
            },
    decreases snapshot.panes.len() - i,
{
    if i < snapshot.panes.len() {
        let pane = snapshot.panes[i];
        let more = if pane.workspace_id == id {
            ids.push(pane.id)
        } else {
            ids
        };
        lemma_stale_status(
            table,
            snapshot,
            id,
            checkout,
            git_common_directory,
            i + 1,
            more,
        );
    }
}

proof fn lemma_stale_agents(agents: Seq<AgentView>, id: Seq<char>, i: int)
    requires
        0 <= i,
    ensures
        stale::scan_stale_agents(agents, id, i) matches Ok(Some(veto)) ==> veto is ActiveAgent,
        stale::scan_stale_agents(agents, id, i) == Ok::<Option<CandidateStatusView>, InspectionErrorView>(
            None,
        ) ==> forall|k: int|
            i <= k < agents.len() && (#[trigger] agents[k]).workspace_id == id ==> quiet(
                agents[k].status,
            ),
    decreases agents.len() - i,
{
    if i < agents.len() {
        lemma_stale_agents(agents, id, i + 1);
    }
}

/// Looking for workspaces whose checkouts are gone changes nothing: every request only looks. And
/// each workspace that is found has a status that says something.
pub proof fn law_stale_inspection_only_looks(
    git_common_directory: Seq<u8>,
    inventory: Seq<Seq<u8>>,
    timeout: u64,
    replies: Seq<ReplyView>,
    at: int,
)
    ensures
        stale::inspect_stale_flow(git_common_directory, inventory, timeout, replies, at)
            matches Flow::Ask(request) ==> only_looks_at_herdr(request),
        stale::inspect_stale_flow(git_common_directory, inventory, timeout, replies, at)
            matches Flow::Done(Ok(StaleWorkspaceStatusView::Inspected(stale)), _) ==> forall|k: int|
            0 <= k < stale.len() ==> !((#[trigger] stale[k]).status is Unavailable),
{
    if let Flow::Done(SnapshotFoundView::Found(session, snapshot), next) = session::snapshot_flow(
        timeout,
        replies,
        at,
    ) {
        if evaluation::snapshot_valid(snapshot) && next < replies.len() {
            lemma_stale_looks(
                session::resolved_table(replies[next]),
                snapshot,
                session,
                git_common_directory,
                inventory,
                0,
                Seq::empty(),
                timeout,
                replies,
                next + 1,
            );
        }
    }
}

/// A workspace whose checkout is gone is clear only where it has panes, every one of them is
/// known to be in that checkout or in Worktrunk's trash under its name, none is focused, and all
/// its agents are idle or done.
pub proof fn law_stale_clear_means_quiet(
    table: Seq<(Seq<u8>, Seq<u8>)>,
    snapshot: SnapshotView,
    id: Seq<char>,
    checkout: Seq<u8>,
    git_common_directory: Seq<u8>,
    session: Option<Seq<char>>,
    coordination: CoordinationView,
)
    requires
        stale::stale_status(table, snapshot, id, checkout, git_common_directory, session) == Ok::<
            CandidateStatusView,
            InspectionErrorView,
        >(CandidateStatusView::Clear(coordination)),
    ensures
        coordination.workspaces == seq![id],
        exists|k: int|
            0 <= k < snapshot.panes.len() && (#[trigger] snapshot.panes[k]).workspace_id == id,
        forall|k: int|
            0 <= k < snapshot.panes.len() && (#[trigger] snapshot.panes[k]).workspace_id == id
                ==> {
                &&& !evaluation::pane_focused(snapshot.panes[k], snapshot.focused_pane_id)
                &&& stale::pane_belongs(table, snapshot.panes[k], checkout, git_common_directory)
                &&& snapshot.panes[k].agent is Some ==> quiet(snapshot.panes[k].status)
            },
        forall|k: int|
            0 <= k < snapshot.agents.len() && (#[trigger] snapshot.agents[k]).workspace_id == id
                ==> quiet(snapshot.agents[k].status),
{
    lemma_stale_status(table, snapshot, id, checkout, git_common_directory, 0, Seq::empty());
    lemma_stale_agents(snapshot.agents, id, 0);
    lemma_pane_workspaces(snapshot.panes, id);
}

} // verus!
