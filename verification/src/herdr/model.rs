//! What Herdr has to say, told of panes, agents, workspaces and the places they are at.
use crate::command::{CommandLineView, CommandResultView, ReplyView, RequestView};
use crate::filepath;
use crate::flow;
use crate::flow::Flow;
use crate::herdr;
use crate::herdr::evaluation;
use crate::herdr::laws;
use crate::herdr::session;
use crate::herdr::stale;
use crate::herdr::{AgentView, CandidateStatusView, CoordinationView, HerdrSessionView};
use crate::herdr::{InspectionErrorView, PaneView, SnapshotDocumentView, SnapshotView};
use crate::herdr::{ProcessInfoDocumentView, StaleWorkspaceView, WorkspaceView};
use crate::herdr::WorkspaceWorktreeView;
use crate::text;
use vstd::prelude::*;
use vstd::utf8::*;

verus! {

/// The place that a path stands for: where it leads, or the path itself where it leads nowhere.
pub open spec fn standing(canon: spec_fn(Seq<u8>) -> Option<Seq<u8>>, path: Seq<u8>) -> Seq<u8> {
    match canon(path) {
        Some(canonical) => canonical,
        None => path,
    }
}

/// Whether a place is at a checkout or below it.
pub open spec fn here(
    canon: spec_fn(Seq<u8>) -> Option<Seq<u8>>,
    place: Option<Seq<u8>>,
    checkout: Seq<u8>,
) -> bool {
    place matches Some(path) && filepath::path_within(
        standing(canon, path),
        standing(canon, checkout),
    )
}

/// Whether a table tells where paths lead: every one of those that lead somewhere.
pub open spec fn tells_places(
    canon: spec_fn(Seq<u8>) -> Option<Seq<u8>>,
    paths: Seq<Seq<u8>>,
    table: Seq<(Seq<u8>, Seq<u8>)>,
) -> bool {
    &&& forall|k: int|
        0 <= k < table.len() ==> canon((#[trigger] table[k]).0) == Some(table[k].1)
    &&& forall|i: int|
        0 <= i < paths.len() && canon(#[trigger] paths[i]) is Some ==> exists|k: int|
            0 <= k < table.len() && (#[trigger] table[k]).0 == paths[i]
}

proof fn lemma_resolve(
    canon: spec_fn(Seq<u8>) -> Option<Seq<u8>>,
    table: Seq<(Seq<u8>, Seq<u8>)>,
    path: Seq<u8>,
)
    requires
        forall|k: int|
            0 <= k < table.len() ==> canon((#[trigger] table[k]).0) == Some(table[k].1),
        canon(path) is Some ==> exists|k: int|
            0 <= k < table.len() && (#[trigger] table[k]).0 == path,
    ensures
        evaluation::resolve(table, path) == standing(canon, path),
    decreases table.len(),
{
    if table.len() > 0 {
        if table[0].0 == path {
        } else {
            let rest = table.skip(1);
            assert forall|k: int| 0 <= k < rest.len() implies canon((#[trigger] rest[k]).0) == Some(
                rest[k].1,
            ) by {
                assert(rest[k] == table[k + 1]);
            }
            if canon(path) is Some {
                let k = choose|k: int| 0 <= k < table.len() && (#[trigger] table[k]).0 == path;
                assert(rest[k - 1] == table[k]);
            }
            lemma_resolve(canon, rest, path);
        }
    }
}

proof fn lemma_add_path(paths: Seq<Seq<u8>>, path: Option<Seq<u8>>, other: Seq<u8>)
    ensures
        session::add_path(paths, path).contains(other) <==> paths.contains(other) || path == Some(
            other,
        ),
{
    if let Some(path) = path {
        lemma_push(paths, path, other);
    }
}

proof fn lemma_push(paths: Seq<Seq<u8>>, path: Seq<u8>, other: Seq<u8>)
    ensures
        paths.push(path).contains(other) <==> paths.contains(other) || path == other,
{
    let longer = paths.push(path);
    if paths.contains(other) {
        let i = choose|i: int| 0 <= i < paths.len() && paths[i] == other;
        assert(longer[i] == other);
    }
    if path == other {
        assert(longer[paths.len() as int] == other);
    }
    if longer.contains(other) {
        let i = choose|i: int| 0 <= i < longer.len() && longer[i] == other;
        if i < paths.len() {
            assert(paths[i] == other);
        }
    }
}

proof fn lemma_pane_paths(paths: Seq<Seq<u8>>, panes: Seq<PaneView>, other: Seq<u8>)
    ensures
        paths.contains(other) ==> session::with_pane_paths(paths, panes).contains(other),
        forall|i: int|
            0 <= i < panes.len() && ((#[trigger] panes[i]).cwd == Some(other)
                || panes[i].foreground_cwd == Some(other)) ==> session::with_pane_paths(
                paths,
                panes,
            ).contains(other),
    decreases panes.len(),
{
    if panes.len() > 0 {
        let shorter = panes.drop_last();
        let last = panes.last();
        lemma_pane_paths(paths, shorter, other);
        let before = session::with_pane_paths(paths, shorter);
        lemma_add_path(before, last.cwd, other);
        lemma_add_path(session::add_path(before, last.cwd), last.foreground_cwd, other);
        assert forall|i: int|
            0 <= i < panes.len() && ((#[trigger] panes[i]).cwd == Some(other)
                || panes[i].foreground_cwd == Some(other)) implies session::with_pane_paths(
            paths,
            panes,
        ).contains(other) by {
            if i < shorter.len() {
                assert(shorter[i] == panes[i]);
            }
        }
    }
}

proof fn lemma_agent_paths(paths: Seq<Seq<u8>>, agents: Seq<AgentView>, other: Seq<u8>)
    ensures
        paths.contains(other) ==> session::with_agent_paths(paths, agents).contains(other),
        forall|i: int|
            0 <= i < agents.len() && ((#[trigger] agents[i]).cwd == Some(other)
                || agents[i].foreground_cwd == Some(other)) ==> session::with_agent_paths(
                paths,
                agents,
            ).contains(other),
    decreases agents.len(),
{
    if agents.len() > 0 {
        let shorter = agents.drop_last();
        let last = agents.last();
        lemma_agent_paths(paths, shorter, other);
        let before = session::with_agent_paths(paths, shorter);
        lemma_add_path(before, last.cwd, other);
        lemma_add_path(session::add_path(before, last.cwd), last.foreground_cwd, other);
        assert forall|i: int|
            0 <= i < agents.len() && ((#[trigger] agents[i]).cwd == Some(other)
                || agents[i].foreground_cwd == Some(other)) implies session::with_agent_paths(
            paths,
            agents,
        ).contains(other) by {
            if i < shorter.len() {
                assert(shorter[i] == agents[i]);
            }
        }
    }
}

proof fn lemma_workspace_paths(paths: Seq<Seq<u8>>, workspaces: Seq<WorkspaceView>, other: Seq<u8>)
    ensures
        paths.contains(other) ==> session::with_workspace_paths(paths, workspaces).contains(other),
        forall|i: int|
            0 <= i < workspaces.len() && ((#[trigger] workspaces[i]).worktree matches Some(worktree)
                && (worktree.checkout_path == other || worktree.repo_key == Some(other)))
                ==> session::with_workspace_paths(paths, workspaces).contains(other),
    decreases workspaces.len(),
{
    if workspaces.len() > 0 {
        let shorter = workspaces.drop_last();
        lemma_workspace_paths(paths, shorter, other);
        let before = session::with_workspace_paths(paths, shorter);
        if let Some(worktree) = workspaces.last().worktree {
            lemma_push(before, worktree.checkout_path, other);
            lemma_add_path(before.push(worktree.checkout_path), worktree.repo_key, other);
        }
        assert forall|i: int|
            0 <= i < workspaces.len() && ((#[trigger] workspaces[i]).worktree matches Some(worktree)
                && (worktree.checkout_path == other || worktree.repo_key == Some(other))) implies
            session::with_workspace_paths(paths, workspaces).contains(other) by {
            if i < shorter.len() {
                assert(shorter[i] == workspaces[i]);
            }
        }
    }
}

/// Whether a path is one that a judgement about a snapshot rests on.
spec fn mentioned(first: Seq<Seq<u8>>, snapshot: SnapshotView, path: Seq<u8>) -> bool {
    ||| first.contains(path)
    ||| exists|i: int|
        0 <= i < snapshot.panes.len() && ((#[trigger] snapshot.panes[i]).cwd == Some(path)
            || snapshot.panes[i].foreground_cwd == Some(path))
    ||| exists|i: int|
        0 <= i < snapshot.agents.len() && ((#[trigger] snapshot.agents[i]).cwd == Some(path)
            || snapshot.agents[i].foreground_cwd == Some(path))
    ||| exists|i: int|
        0 <= i < snapshot.workspaces.len() && ((#[trigger] snapshot.workspaces[i]).worktree
            matches Some(worktree) && (worktree.checkout_path == path || worktree.repo_key == Some(
            path,
        )))
}

proof fn lemma_mentioned(
    canon: spec_fn(Seq<u8>) -> Option<Seq<u8>>,
    first: Seq<Seq<u8>>,
    snapshot: SnapshotView,
    table: Seq<(Seq<u8>, Seq<u8>)>,
    path: Seq<u8>,
)
    requires
        tells_places(canon, session::mentioned_paths(first, snapshot), table),
        mentioned(first, snapshot, path),
    ensures
        evaluation::resolve(table, path) == standing(canon, path),
{
    let panes = session::with_pane_paths(first, snapshot.panes);
    let agents = session::with_agent_paths(panes, snapshot.agents);
    lemma_pane_paths(first, snapshot.panes, path);
    lemma_agent_paths(panes, snapshot.agents, path);
    lemma_workspace_paths(agents, snapshot.workspaces, path);
    let paths = session::mentioned_paths(first, snapshot);
    assert(paths.contains(path));
    let i = choose|i: int| 0 <= i < paths.len() && paths[i] == path;
    if canon(path) is Some {
        assert(canon(paths[i]) is Some);
    }
    lemma_resolve(canon, table, path);
}

/// Whether a pane is in a checkout: with its own current directory, or with that of the process in
/// its foreground.
pub open spec fn pane_here(
    canon: spec_fn(Seq<u8>) -> Option<Seq<u8>>,
    pane: PaneView,
    checkout: Seq<u8>,
) -> bool {
    here(canon, pane.cwd, checkout) || here(canon, pane.foreground_cwd, checkout)
}

/// Whether a workspace is described as one of a checkout.
pub open spec fn described(
    canon: spec_fn(Seq<u8>) -> Option<Seq<u8>>,
    snapshot: SnapshotView,
    id: Seq<char>,
    checkout: Seq<u8>,
) -> bool {
    exists|i: int|
        0 <= i < snapshot.workspaces.len() && (#[trigger] snapshot.workspaces[i]).workspace_id == id
            && (snapshot.workspaces[i].worktree matches Some(worktree) && here(
            canon,
            Some(worktree.checkout_path),
            checkout,
        ))
}

/// Whether a pane counts among those of a checkout.
pub open spec fn pane_counts(
    canon: spec_fn(Seq<u8>) -> Option<Seq<u8>>,
    snapshot: SnapshotView,
    pane: PaneView,
    checkout: Seq<u8>,
) -> bool {
    pane_here(canon, pane, checkout) || described(canon, snapshot, pane.workspace_id, checkout)
}

/// Whether an agent counts among those of a checkout: it works there, or in a pane or a workspace
/// that counts.
pub open spec fn agent_counts(
    canon: spec_fn(Seq<u8>) -> Option<Seq<u8>>,
    snapshot: SnapshotView,
    agent: AgentView,
    checkout: Seq<u8>,
) -> bool {
    ||| here(canon, agent.cwd, checkout)
    ||| here(canon, agent.foreground_cwd, checkout)
    ||| described(canon, snapshot, agent.workspace_id, checkout)
    ||| exists|i: int|
        0 <= i < snapshot.panes.len() && (#[trigger] snapshot.panes[i]).id == agent.id
            && pane_counts(canon, snapshot, snapshot.panes[i], checkout)
}

/// Whether a pane is the focused one.
pub open spec fn has_focus(snapshot: SnapshotView, pane: PaneView) -> bool {
    pane.focused || snapshot.focused_pane_id == Some(pane.id)
}

/// Whether nothing that is known of a checkout speaks against its removal: the snapshot says what
/// it is; no pane of the checkout has the focus; no agent in a pane of it, and none that counts, is
/// anything but idle or done; every workspace that has to do with the checkout has all its panes in
/// it, and one that is described as its own has one at all.
pub open spec fn all_clear(
    canon: spec_fn(Seq<u8>) -> Option<Seq<u8>>,
    snapshot: SnapshotView,
    checkout: Seq<u8>,
) -> bool {
    &&& text::trimmed(snapshot.version).len() > 0
    &&& snapshot.protocol != 0
    &&& forall|i: int|
        0 <= i < snapshot.panes.len() && pane_counts(
            canon,
            snapshot,
            #[trigger] snapshot.panes[i],
            checkout,
        ) ==> !has_focus(snapshot, snapshot.panes[i]) && (snapshot.panes[i].agent is Some ==> (
        snapshot.panes[i].status is Idle || snapshot.panes[i].status is Done))
    &&& forall|i: int|
        0 <= i < snapshot.agents.len() && agent_counts(
            canon,
            snapshot,
            #[trigger] snapshot.agents[i],
            checkout,
        ) ==> snapshot.agents[i].status is Idle || snapshot.agents[i].status is Done
    &&& forall|i: int, j: int|
        0 <= i < snapshot.panes.len() && 0 <= j < snapshot.panes.len() && (
        #[trigger] snapshot.panes[i]).workspace_id == (#[trigger] snapshot.panes[j]).workspace_id
            && pane_counts(canon, snapshot, snapshot.panes[i], checkout) ==> pane_here(
            canon,
            snapshot.panes[j],
            checkout,
        )
    &&& forall|id: Seq<char>| #[trigger]
        described(canon, snapshot, id, checkout) ==> exists|i: int|
            0 <= i < snapshot.panes.len() && (#[trigger] snapshot.panes[i]).workspace_id == id
}

/// Whether a table stands for the places that a snapshot mentions.
spec fn stands_for(
    canon: spec_fn(Seq<u8>) -> Option<Seq<u8>>,
    snapshot: SnapshotView,
    checkout: Seq<u8>,
    table: Seq<(Seq<u8>, Seq<u8>)>,
) -> bool {
    forall|path: Seq<u8>|
        mentioned(seq![checkout], snapshot, path) ==> #[trigger] evaluation::resolve(table, path)
            == standing(canon, path)
}

proof fn lemma_pane_within(
    canon: spec_fn(Seq<u8>) -> Option<Seq<u8>>,
    snapshot: SnapshotView,
    checkout: Seq<u8>,
    table: Seq<(Seq<u8>, Seq<u8>)>,
    i: int,
)
    requires
        stands_for(canon, snapshot, checkout, table),
        0 <= i < snapshot.panes.len(),
    ensures
        evaluation::pane_within(table, snapshot.panes[i], checkout) == pane_here(
            canon,
            snapshot.panes[i],
            checkout,
        ),
{
    let pane = snapshot.panes[i];
    assert(seq![checkout].contains(checkout)) by {
        assert(seq![checkout][0] == checkout);
    }
    assert(mentioned(seq![checkout], snapshot, checkout));
    if let Some(path) = pane.cwd {
        assert(mentioned(seq![checkout], snapshot, path));
    }
    if let Some(path) = pane.foreground_cwd {
        assert(mentioned(seq![checkout], snapshot, path));
    }
}

proof fn lemma_described(
    canon: spec_fn(Seq<u8>) -> Option<Seq<u8>>,
    snapshot: SnapshotView,
    checkout: Seq<u8>,
    table: Seq<(Seq<u8>, Seq<u8>)>,
    id: Seq<char>,
)
    requires
        stands_for(canon, snapshot, checkout, table),
    ensures
        evaluation::candidate_workspaces(table, snapshot.workspaces, checkout).contains(id)
            <==> described(canon, snapshot, id, checkout),
{
    assert(seq![checkout].contains(checkout)) by {
        assert(seq![checkout][0] == checkout);
    }
    assert(mentioned(seq![checkout], snapshot, checkout));
    assert forall|i: int|
        0 <= i < snapshot.workspaces.len() && (#[trigger] snapshot.workspaces[i]).worktree
            is Some implies evaluation::resolves_within(
        table,
        snapshot.workspaces[i].worktree->0.checkout_path,
        checkout,
    ) == here(canon, Some(snapshot.workspaces[i].worktree->0.checkout_path), checkout) by {
        let path = snapshot.workspaces[i].worktree->0.checkout_path;
        assert(mentioned(seq![checkout], snapshot, path));
        assert(evaluation::resolve(table, path) == standing(canon, path));
    }
    assert(snapshot.workspaces.take(snapshot.workspaces.len() as int) =~= snapshot.workspaces);
    lemma_described_among(canon, snapshot, checkout, table, id, snapshot.workspaces.len() as int);
}

proof fn lemma_described_among(
    canon: spec_fn(Seq<u8>) -> Option<Seq<u8>>,
    snapshot: SnapshotView,
    checkout: Seq<u8>,
    table: Seq<(Seq<u8>, Seq<u8>)>,
    id: Seq<char>,
    n: int,
)
    requires
        0 <= n <= snapshot.workspaces.len(),
        forall|i: int|
            0 <= i < snapshot.workspaces.len() && (#[trigger] snapshot.workspaces[i]).worktree
                is Some ==> evaluation::resolves_within(
                table,
                snapshot.workspaces[i].worktree->0.checkout_path,
                checkout,
            ) == here(canon, Some(snapshot.workspaces[i].worktree->0.checkout_path), checkout),
    ensures
        evaluation::candidate_workspaces(table, snapshot.workspaces.take(n), checkout).contains(id)
            <==> exists|i: int|
            0 <= i < n && (#[trigger] snapshot.workspaces[i]).workspace_id == id && (
            snapshot.workspaces[i].worktree matches Some(worktree) && here(
                canon,
                Some(worktree.checkout_path),
                checkout,
            )),
    decreases n,
{
    if n > 0 {
        lemma_described_among(canon, snapshot, checkout, table, id, n - 1);
        let now = snapshot.workspaces.take(n);
        assert(now.drop_last() =~= snapshot.workspaces.take(n - 1));
        assert(now.last() == snapshot.workspaces[n - 1]);
        let before = evaluation::candidate_workspaces(table, now.drop_last(), checkout);
        text::lemma_insert_text(before, now.last().workspace_id, id);
    } else {
        assert(snapshot.workspaces.take(0) =~= Seq::empty());
    }
}

proof fn lemma_lost(panes: Seq<PaneView>, id: Seq<char>, i: int)
    requires
        0 <= i,
    ensures
        evaluation::first_lost_pane(panes, id, i) is None <==> forall|k: int|
            i <= k < panes.len() && (#[trigger] panes[k]).workspace_id == id ==> panes[k].cwd is Some
                || panes[k].foreground_cwd is Some,
    decreases panes.len() - i,
{
    if i < panes.len() {
        lemma_lost(panes, id, i + 1);
    }
}

proof fn lemma_other(
    table: Seq<(Seq<u8>, Seq<u8>)>,
    panes: Seq<PaneView>,
    id: Seq<char>,
    checkout: Seq<u8>,
    i: int,
)
    requires
        0 <= i,
    ensures
        evaluation::first_other_pane(table, panes, id, checkout, i) is None <==> forall|k: int|
            i <= k < panes.len() && (#[trigger] panes[k]).workspace_id == id
                ==> evaluation::pane_within(table, panes[k], checkout),
    decreases panes.len() - i,
{
    if i < panes.len() {
        lemma_other(table, panes, id, checkout, i + 1);
    }
}

proof fn lemma_errors(
    table: Seq<(Seq<u8>, Seq<u8>)>,
    panes: Seq<PaneView>,
    ids: Seq<Seq<char>>,
    known: Seq<Seq<char>>,
    checkout: Seq<u8>,
    i: int,
)
    requires
        0 <= i,
    ensures
        evaluation::workspaces_error(table, panes, ids, known, checkout, i) is None <==> forall|
            k: int,
        |
            i <= k < ids.len() ==> evaluation::workspace_error(
                table,
                panes,
                #[trigger] ids[k],
                checkout,
                known.contains(ids[k]),
            ) is None,
    decreases ids.len() - i,
{
    if i < ids.len() {
        lemma_errors(table, panes, ids, known, checkout, i + 1);
    }
}

proof fn lemma_empty(panes: Seq<PaneView>, ids: Seq<Seq<char>>, i: int)
    requires
        0 <= i,
    ensures
        evaluation::empty_error(panes, ids, i) is None <==> forall|k: int|
            i <= k < ids.len() ==> evaluation::pane_workspaces(panes).contains(#[trigger] ids[k]),
    decreases ids.len() - i,
{
    if i < ids.len() {
        lemma_empty(panes, ids, i + 1);
    }
}

/// Whether a pane stands in nobody's way.
spec fn pane_quiet(snapshot: SnapshotView, pane: PaneView) -> bool {
    !has_focus(snapshot, pane) && (pane.agent is Some ==> (pane.status is Idle || pane.status
        is Done))
}

proof fn lemma_panes(
    table: Seq<(Seq<u8>, Seq<u8>)>,
    snapshot: SnapshotView,
    checkout: Seq<u8>,
    known: Seq<Seq<char>>,
    i: int,
    ids: Seq<Seq<char>>,
)
    requires
        0 <= i,
    ensures
        (evaluation::scan_panes(table, snapshot, checkout, known, i, ids) matches Ok(Ok(_)))
            <==> forall|k: int|
            i <= k < snapshot.panes.len() && evaluation::candidate_pane(
                table,
                #[trigger] snapshot.panes[k],
                checkout,
                known,
            ) ==> pane_quiet(snapshot, snapshot.panes[k]),
        evaluation::scan_panes(table, snapshot, checkout, known, i, ids) matches Ok(Ok(found))
            ==> forall|id: Seq<char>| #[trigger]
            found.contains(id) <==> ids.contains(id) || exists|k: int|
                i <= k < snapshot.panes.len() && (#[trigger] snapshot.panes[k]).id == id
                    && evaluation::candidate_pane(table, snapshot.panes[k], checkout, known),
        evaluation::scan_panes(table, snapshot, checkout, known, i, ids) matches Ok(Err(veto))
            ==> exists|k: int|
            i <= k < snapshot.panes.len() && evaluation::candidate_pane(
                table,
                #[trigger] snapshot.panes[k],
                checkout,
                known,
            ) && vetoed_by_pane(snapshot, snapshot.panes[k], veto),
    decreases snapshot.panes.len() - i,
{
    if i < snapshot.panes.len() {
        let pane = snapshot.panes[i];
        if !evaluation::candidate_pane(table, pane, checkout, known) {
            lemma_panes(table, snapshot, checkout, known, i + 1, ids);
        } else {
            let more = ids.push(pane.id);
            lemma_panes(table, snapshot, checkout, known, i + 1, more);
            assert forall|id: Seq<char>| #[trigger] more.contains(id) <==> ids.contains(id) || id
                == pane.id by {
                if ids.contains(id) {
                    let k = choose|k: int| 0 <= k < ids.len() && ids[k] == id;
                    assert(more[k] == id);
                }
                if id == pane.id {
                    assert(more[ids.len() as int] == id);
                }
                if more.contains(id) {
                    let k = choose|k: int| 0 <= k < more.len() && more[k] == id;
                    if k < ids.len() {
                        assert(ids[k] == id);
                    }
                }
            }
        }
    }
}

/// Whether a veto names a pane for what it is: it has the focus, or its agent is working or
/// blocked.
pub open spec fn vetoed_by_pane(
    snapshot: SnapshotView,
    pane: PaneView,
    veto: CandidateStatusView,
) -> bool {
    ||| has_focus(snapshot, pane) && veto == (CandidateStatusView::FocusedPane { pane_id: pane.id })
    ||| pane.agent is Some && (pane.status is Working || pane.status is Blocked) && veto == (
    CandidateStatusView::ActiveAgent { pane_id: pane.id })
}

proof fn lemma_agents(
    table: Seq<(Seq<u8>, Seq<u8>)>,
    agents: Seq<AgentView>,
    checkout: Seq<u8>,
    known: Seq<Seq<char>>,
    panes: Seq<Seq<char>>,
    i: int,
)
    requires
        0 <= i,
    ensures
        evaluation::scan_agents(table, agents, checkout, known, panes, i) == Ok::<
            Option<CandidateStatusView>,
            InspectionErrorView,
        >(None) <==> forall|k: int|
            i <= k < agents.len() && evaluation::candidate_agent(
                table,
                #[trigger] agents[k],
                checkout,
                known,
                panes,
            ) ==> agents[k].status is Idle || agents[k].status is Done,
        evaluation::scan_agents(table, agents, checkout, known, panes, i) matches Ok(Some(veto))
            ==> exists|k: int|
            i <= k < agents.len() && evaluation::candidate_agent(
                table,
                #[trigger] agents[k],
                checkout,
                known,
                panes,
            ) && (agents[k].status is Working || agents[k].status is Blocked) && veto == (
            CandidateStatusView::ActiveAgent { pane_id: agents[k].id }),
    decreases agents.len() - i,
{
    if i < agents.len() {
        lemma_agents(table, agents, checkout, known, panes, i + 1);
    }
}

proof fn lemma_retired(
    table: Seq<(Seq<u8>, Seq<u8>)>,
    panes: Seq<PaneView>,
    ids: Seq<Seq<char>>,
    checkout: Seq<u8>,
    i: int,
    found: Seq<Seq<char>>,
    id: Seq<char>,
)
    requires
        0 <= i,
    ensures
        evaluation::cleanup_workspaces(table, panes, ids, checkout, i, found).contains(id)
            <==> found.contains(id) || exists|k: int|
            i <= k < ids.len() && #[trigger] ids[k] == id && evaluation::has_candidate_pane(
                table,
                panes,
                id,
                checkout,
            ) && evaluation::all_panes_within(table, panes, id, checkout),
    decreases ids.len() - i,
{
    if i < ids.len() {
        if evaluation::has_candidate_pane(table, panes, ids[i], checkout)
            && evaluation::all_panes_within(table, panes, ids[i], checkout) {
            text::lemma_insert_text(found, ids[i], id);
            lemma_retired(
                table,
                panes,
                ids,
                checkout,
                i + 1,
                text::insert_text(found, ids[i]),
                id,
            );
        } else {
            lemma_retired(table, panes, ids, checkout, i + 1, found, id);
        }
    }
}

/// The workspaces that have to do with a checkout have nothing unknown or foreign in them exactly
/// when all their panes are in it, and the described ones have panes.
proof fn lemma_candidate_error(
    canon: spec_fn(Seq<u8>) -> Option<Seq<u8>>,
    snapshot: SnapshotView,
    checkout: Seq<u8>,
    table: Seq<(Seq<u8>, Seq<u8>)>,
)
    requires
        stands_for(canon, snapshot, checkout, table),
    ensures
        evaluation::candidate_error(table, snapshot, checkout) is None <==> {
            &&& forall|i: int, j: int|
                0 <= i < snapshot.panes.len() && 0 <= j < snapshot.panes.len() && (
                #[trigger] snapshot.panes[i]).workspace_id == (
                #[trigger] snapshot.panes[j]).workspace_id && pane_counts(
                    canon,
                    snapshot,
                    snapshot.panes[i],
                    checkout,
                ) ==> pane_here(canon, snapshot.panes[j], checkout)
            &&& forall|id: Seq<char>| #[trigger]
                described(canon, snapshot, id, checkout) ==> exists|i: int|
                    0 <= i < snapshot.panes.len() && (#[trigger] snapshot.panes[i]).workspace_id
                        == id
        },
{
    let panes = snapshot.panes;
    let known = evaluation::candidate_workspaces(table, snapshot.workspaces, checkout);
    let ids = evaluation::pane_workspaces(panes);
    lemma_errors(table, panes, ids, known, checkout, 0);
    lemma_empty(panes, known, 0);
    assert forall|id: Seq<char>| #[trigger] known.contains(id) <==> described(
        canon,
        snapshot,
        id,
        checkout,
    ) by {
        lemma_described(canon, snapshot, checkout, table, id);
    }
    assert forall|k: int| 0 <= k < panes.len() implies evaluation::pane_within(
        table,
        #[trigger] panes[k],
        checkout,
    ) == pane_here(canon, panes[k], checkout) by {
        lemma_pane_within(canon, snapshot, checkout, table, k);
    }
    assert forall|id: Seq<char>| #[trigger] ids.contains(id) <==> exists|i: int|
        0 <= i < panes.len() && (#[trigger] panes[i]).workspace_id == id by {
        laws::lemma_pane_workspaces(panes, id);
    }
    let kept = forall|i: int, j: int|
        0 <= i < panes.len() && 0 <= j < panes.len() && (#[trigger] panes[i]).workspace_id == (
        #[trigger] panes[j]).workspace_id && pane_counts(canon, snapshot, panes[i], checkout)
            ==> pane_here(canon, panes[j], checkout);
    let populated = forall|id: Seq<char>| #[trigger]
        described(canon, snapshot, id, checkout) ==> exists|i: int|
            0 <= i < panes.len() && (#[trigger] panes[i]).workspace_id == id;
    let no_error = evaluation::workspaces_error(table, panes, ids, known, checkout, 0) is None;
    if kept {
        assert forall|k: int| 0 <= k < ids.len() implies evaluation::workspace_error(
            table,
            panes,
            #[trigger] ids[k],
            checkout,
            known.contains(ids[k]),
        ) is None by {
            let id = ids[k];
            lemma_lost(panes, id, 0);
            lemma_other(table, panes, id, checkout, 0);
            if known.contains(id) || evaluation::has_candidate_pane(table, panes, id, checkout) {
                assert forall|j: int|
                    0 <= j < panes.len() && (#[trigger] panes[j]).workspace_id == id implies
                    pane_here(canon, panes[j], checkout) by {
                    if known.contains(id) {
                        assert(pane_counts(canon, snapshot, panes[j], checkout));
                        assert(panes[j].workspace_id == panes[j].workspace_id);
                    } else {
                        let i = choose|i: int|
                            0 <= i < panes.len() && (#[trigger] panes[i]).workspace_id == id
                                && evaluation::pane_within(table, panes[i], checkout);
                        assert(pane_counts(canon, snapshot, panes[i], checkout));
                        assert(panes[i].workspace_id == panes[j].workspace_id);
                    }
                }
            }
        }
        assert(no_error);
    }
    if no_error {
        assert forall|i: int, j: int|
            0 <= i < panes.len() && 0 <= j < panes.len() && (#[trigger] panes[i]).workspace_id == (
            #[trigger] panes[j]).workspace_id && pane_counts(
                canon,
                snapshot,
                panes[i],
                checkout,
            ) implies pane_here(canon, panes[j], checkout) by {
            let id = panes[i].workspace_id;
            assert(ids.contains(id));
            let k = choose|k: int| 0 <= k < ids.len() && ids[k] == id;
            assert(evaluation::workspace_error(
                table,
                panes,
                ids[k],
                checkout,
                known.contains(ids[k]),
            ) is None);
            lemma_other(table, panes, id, checkout, 0);
            assert(known.contains(id) || evaluation::has_candidate_pane(table, panes, id, checkout));
            assert(evaluation::pane_within(table, panes[j], checkout));
        }
        assert(kept);
    }
    if populated {
        assert forall|k: int| 0 <= k < known.len() implies ids.contains(#[trigger] known[k]) by {
            assert(known.contains(known[k]));
            assert(described(canon, snapshot, known[k], checkout));
        }
    }
    if evaluation::empty_error(panes, known, 0) is None {
        assert forall|id: Seq<char>| #[trigger] described(
            canon,
            snapshot,
            id,
            checkout,
        ) implies exists|i: int|
            0 <= i < panes.len() && (#[trigger] panes[i]).workspace_id == id by {
            assert(known.contains(id));
            let k = choose|k: int| 0 <= k < known.len() && known[k] == id;
            assert(ids.contains(known[k]));
        }
    }
}

proof fn lemma_counts(
    canon: spec_fn(Seq<u8>) -> Option<Seq<u8>>,
    snapshot: SnapshotView,
    checkout: Seq<u8>,
    table: Seq<(Seq<u8>, Seq<u8>)>,
    panes: Seq<Seq<char>>,
)
    requires
        stands_for(canon, snapshot, checkout, table),
        forall|id: Seq<char>| #[trigger]
            panes.contains(id) <==> exists|k: int|
                0 <= k < snapshot.panes.len() && (#[trigger] snapshot.panes[k]).id == id
                    && pane_counts(canon, snapshot, snapshot.panes[k], checkout),
    ensures
        forall|k: int|
            0 <= k < snapshot.agents.len() ==> evaluation::candidate_agent(
                table,
                #[trigger] snapshot.agents[k],
                checkout,
                evaluation::candidate_workspaces(table, snapshot.workspaces, checkout),
                panes,
            ) == agent_counts(canon, snapshot, snapshot.agents[k], checkout),
{
    assert(seq![checkout].contains(checkout)) by {
        assert(seq![checkout][0] == checkout);
    }
    assert(mentioned(seq![checkout], snapshot, checkout));
    assert forall|k: int| 0 <= k < snapshot.agents.len() implies evaluation::candidate_agent(
        table,
        #[trigger] snapshot.agents[k],
        checkout,
        evaluation::candidate_workspaces(table, snapshot.workspaces, checkout),
        panes,
    ) == agent_counts(canon, snapshot, snapshot.agents[k], checkout) by {
        let agent = snapshot.agents[k];
        lemma_described(canon, snapshot, checkout, table, agent.workspace_id);
        if let Some(path) = agent.cwd {
            assert(mentioned(seq![checkout], snapshot, path));
            assert(evaluation::resolve(table, path) == standing(canon, path));
        }
        if let Some(path) = agent.foreground_cwd {
            assert(mentioned(seq![checkout], snapshot, path));
            assert(evaluation::resolve(table, path) == standing(canon, path));
        }
        assert(evaluation::resolve(table, checkout) == standing(canon, checkout));
        assert(panes.contains(agent.id) <==> exists|j: int|
            0 <= j < snapshot.panes.len() && (#[trigger] snapshot.panes[j]).id == agent.id
                && pane_counts(canon, snapshot, snapshot.panes[j], checkout));
    }
}

/// A checkout is clear exactly when nothing that Herdr knows of it speaks against its removal, told
/// of the current directories of panes, of the processes in their foreground and of agents, and of
/// the checkouts of workspaces, wherever these paths lead. What is retired with it are the
/// workspaces that are described as its own, and those that have a pane in it and none elsewhere.
/// What stands in the way is named: a pane that has the focus, or an agent that is at work.
pub proof fn law_checkouts_are_clear_where_nobody_is(
    canon: spec_fn(Seq<u8>) -> Option<Seq<u8>>,
    snapshot: SnapshotView,
    checkout: Seq<u8>,
    session: Option<Seq<char>>,
    table: Seq<(Seq<u8>, Seq<u8>)>,
)
    requires
        tells_places(canon, session::mentioned_paths(seq![checkout], snapshot), table),
    ensures
        ({
            let status = evaluation::snapshot_status(table, snapshot, checkout, session);
            &&& (status matches Ok(CandidateStatusView::Clear(_))) <==> all_clear(
                canon,
                snapshot,
                checkout,
            )
            &&& status matches Ok(CandidateStatusView::Clear(coordination)) ==> retires(
                canon,
                snapshot,
                checkout,
                session,
                coordination,
            )
            &&& status matches Ok(CandidateStatusView::FocusedPane { pane_id }) ==> exists|k: int|
                0 <= k < snapshot.panes.len() && (#[trigger] snapshot.panes[k]).id == pane_id
                    && pane_counts(canon, snapshot, snapshot.panes[k], checkout) && has_focus(
                    snapshot,
                    snapshot.panes[k],
                )
            &&& status matches Ok(CandidateStatusView::ActiveAgent { pane_id }) ==> at_work(
                canon,
                snapshot,
                checkout,
                pane_id,
            )
            &&& !(status matches Ok(CandidateStatusView::Unavailable))
        }),
{
    assert(stands_for(canon, snapshot, checkout, table)) by {
        assert forall|path: Seq<u8>| mentioned(seq![checkout], snapshot, path) implies
            #[trigger] evaluation::resolve(table, path) == standing(canon, path) by {
            lemma_mentioned(canon, seq![checkout], snapshot, table, path);
        }
    }
    let known = evaluation::candidate_workspaces(table, snapshot.workspaces, checkout);
    lemma_candidate_error(canon, snapshot, checkout, table);
    lemma_panes(table, snapshot, checkout, known, 0, Seq::empty());
    assert forall|k: int| 0 <= k < snapshot.panes.len() implies evaluation::candidate_pane(
        table,
        #[trigger] snapshot.panes[k],
        checkout,
        known,
    ) == pane_counts(canon, snapshot, snapshot.panes[k], checkout) by {
        lemma_pane_within(canon, snapshot, checkout, table, k);
        lemma_described(canon, snapshot, checkout, table, snapshot.panes[k].workspace_id);
    }
    if let Ok(Ok(panes)) = evaluation::scan_panes(
        table,
        snapshot,
        checkout,
        known,
        0,
        Seq::empty(),
    ) {
        assert forall|id: Seq<char>| #[trigger] panes.contains(id) <==> exists|k: int|
            0 <= k < snapshot.panes.len() && (#[trigger] snapshot.panes[k]).id == id && pane_counts(
                canon,
                snapshot,
                snapshot.panes[k],
                checkout,
            ) by {
            if exists|k: int|
                0 <= k < snapshot.panes.len() && (#[trigger] snapshot.panes[k]).id == id
                    && pane_counts(canon, snapshot, snapshot.panes[k], checkout) {
                let k = choose|k: int|
                    0 <= k < snapshot.panes.len() && (#[trigger] snapshot.panes[k]).id == id
                        && pane_counts(canon, snapshot, snapshot.panes[k], checkout);
                assert(evaluation::candidate_pane(table, snapshot.panes[k], checkout, known));
            }
        }
        lemma_counts(canon, snapshot, checkout, table, panes);
        lemma_agents(table, snapshot.agents, checkout, known, panes, 0);
        lemma_retires(canon, snapshot, checkout, table);
    }
}

/// Whether an agent is at work in a pane of a checkout, or counts among those of it otherwise.
pub open spec fn at_work(
    canon: spec_fn(Seq<u8>) -> Option<Seq<u8>>,
    snapshot: SnapshotView,
    checkout: Seq<u8>,
    pane_id: Seq<char>,
) -> bool {
    ||| exists|k: int|
        0 <= k < snapshot.panes.len() && (#[trigger] snapshot.panes[k]).id == pane_id && pane_counts(
            canon,
            snapshot,
            snapshot.panes[k],
            checkout,
        ) && snapshot.panes[k].agent is Some && (snapshot.panes[k].status is Working
            || snapshot.panes[k].status is Blocked)
    ||| exists|k: int|
        0 <= k < snapshot.agents.len() && (#[trigger] snapshot.agents[k]).id == pane_id
            && agent_counts(canon, snapshot, snapshot.agents[k], checkout) && (
        snapshot.agents[k].status is Working || snapshot.agents[k].status is Blocked)
}

/// Whether what is to be retired with a checkout is what belongs to it.
pub open spec fn retires(
    canon: spec_fn(Seq<u8>) -> Option<Seq<u8>>,
    snapshot: SnapshotView,
    checkout: Seq<u8>,
    session: Option<Seq<char>>,
    coordination: CoordinationView,
) -> bool {
    &&& coordination.session == session
    &&& forall|id: Seq<char>| #[trigger]
        coordination.workspaces.contains(id) <==> described(canon, snapshot, id, checkout) || (
        exists|k: int|
            0 <= k < snapshot.panes.len() && (#[trigger] snapshot.panes[k]).workspace_id == id
                && pane_here(canon, snapshot.panes[k], checkout)) && (forall|k: int|
            0 <= k < snapshot.panes.len() && (#[trigger] snapshot.panes[k]).workspace_id == id
                ==> pane_here(canon, snapshot.panes[k], checkout))
    &&& forall|id: Seq<char>| #[trigger]
        coordination.panes.contains(id) <==> exists|k: int|
            0 <= k < snapshot.panes.len() && (#[trigger] snapshot.panes[k]).id == id && pane_counts(
                canon,
                snapshot,
                snapshot.panes[k],
                checkout,
            )
}

proof fn lemma_retires(
    canon: spec_fn(Seq<u8>) -> Option<Seq<u8>>,
    snapshot: SnapshotView,
    checkout: Seq<u8>,
    table: Seq<(Seq<u8>, Seq<u8>)>,
)
    requires
        stands_for(canon, snapshot, checkout, table),
    ensures
        ({
            let known = evaluation::candidate_workspaces(table, snapshot.workspaces, checkout);
            let ids = evaluation::pane_workspaces(snapshot.panes);
            let workspaces = evaluation::cleanup_workspaces(
                table,
                snapshot.panes,
                ids,
                checkout,
                0,
                known,
            );
            forall|id: Seq<char>| #[trigger]
                workspaces.contains(id) <==> described(canon, snapshot, id, checkout) || (exists|
                    k: int,
                |
                    0 <= k < snapshot.panes.len() && (#[trigger] snapshot.panes[k]).workspace_id
                        == id && pane_here(canon, snapshot.panes[k], checkout)) && (forall|k: int|
                    0 <= k < snapshot.panes.len() && (#[trigger] snapshot.panes[k]).workspace_id
                        == id ==> pane_here(canon, snapshot.panes[k], checkout))
        }),
{
    let panes = snapshot.panes;
    let known = evaluation::candidate_workspaces(table, snapshot.workspaces, checkout);
    let ids = evaluation::pane_workspaces(panes);
    let workspaces = evaluation::cleanup_workspaces(table, panes, ids, checkout, 0, known);
    assert forall|k: int| 0 <= k < panes.len() implies evaluation::pane_within(
        table,
        #[trigger] panes[k],
        checkout,
    ) == pane_here(canon, panes[k], checkout) by {
        lemma_pane_within(canon, snapshot, checkout, table, k);
    }
    assert forall|id: Seq<char>| #[trigger] workspaces.contains(id) <==> described(
        canon,
        snapshot,
        id,
        checkout,
    ) || (exists|k: int|
        0 <= k < panes.len() && (#[trigger] panes[k]).workspace_id == id && pane_here(
            canon,
            panes[k],
            checkout,
        )) && (forall|k: int|
        0 <= k < panes.len() && (#[trigger] panes[k]).workspace_id == id ==> pane_here(
            canon,
            panes[k],
            checkout,
        )) by {
        lemma_retired(table, panes, ids, checkout, 0, known, id);
        lemma_described(canon, snapshot, checkout, table, id);
        laws::lemma_pane_workspaces(panes, id);
        if exists|k: int|
            0 <= k < panes.len() && (#[trigger] panes[k]).workspace_id == id && pane_here(
                canon,
                panes[k],
                checkout,
            ) {
            assert(ids.contains(id));
            let j = choose|j: int| 0 <= j < ids.len() && ids[j] == id;
            assert(ids[j] == id);
        }
    }
}

/// Whether a line runs Herdr's client in the surroundings of this process, with a limit of time.
pub open spec fn runs_herdr(
    line: CommandLineView,
    session: Option<Seq<char>>,
    arguments: Seq<Seq<char>>,
    timeout: u64,
) -> bool {
    &&& line.program == "herdr"@
    &&& line.directory is None
    &&& line.environment.len() == 0
    &&& line.removed.len() == 0
    &&& line.timeout == Some(timeout)
    &&& line.arguments =~= match session {
        None => arguments,
        Some(name) => seq!["--session"@, name] + arguments,
    }
}

/// Whether a line makes Herdr list its sessions.
pub open spec fn lists_sessions(line: CommandLineView, timeout: u64) -> bool {
    runs_herdr(line, None, seq!["session"@, "list"@, "--json"@], timeout)
}

/// Whether a line makes Herdr describe a session.
pub open spec fn describes_session(
    line: CommandLineView,
    session: Option<Seq<char>>,
    timeout: u64,
) -> bool {
    runs_herdr(line, session, seq!["api"@, "snapshot"@], timeout)
}

/// Whether a line makes Herdr describe the processes of a pane.
pub open spec fn describes_processes(
    line: CommandLineView,
    session: Option<Seq<char>>,
    pane: Seq<char>,
    timeout: u64,
) -> bool {
    runs_herdr(line, session, seq!["pane"@, "process-info"@, "--pane"@, pane], timeout)
}

/// Whether a session is the one to name: it is running, and no other is.
pub open spec fn only_running(sessions: Seq<HerdrSessionView>, name: Seq<char>) -> bool {
    exists|k: int|
        0 <= k < sessions.len() && (#[trigger] sessions[k]).running && sessions[k].name == name
            && forall|j: int|
            0 <= j < sessions.len() && j != k ==> !(#[trigger] sessions[j]).running
}

/// Whether a session is named exactly where one is the only one that is running.
pub open spec fn names_session(
    sessions: Seq<HerdrSessionView>,
    session: Option<Seq<char>>,
) -> bool {
    match session {
        Some(name) => only_running(sessions, name),
        None => forall|name: Seq<char>| !#[trigger] only_running(sessions, name),
    }
}

/// What Herdr knows.
pub struct HerdrModel {
    pub sessions: Seq<HerdrSessionView>,
    pub session: Option<Seq<char>>,
    pub snapshot: SnapshotView,
    /// Where paths lead.
    pub canon: spec_fn(Seq<u8>) -> Option<Seq<u8>>,
    /// The shell of a pane, and the processes in its foreground.
    pub processes: spec_fn(Seq<char>) -> (u32, Seq<u32>),
}

/// Whether the command that a line runs succeeds and prints a document that is read as told.
pub open spec fn is_read(
    world: spec_fn(RequestView) -> ReplyView,
    line: CommandLineView,
    decode: spec_fn(Seq<u8>) -> RequestView,
    told: ReplyView,
) -> bool {
    world(RequestView::Run(line)) matches ReplyView::Command(
        CommandResultView::Exited { code, stdout, .. },
    ) && code == Some(0i32) && world(decode(stdout)) == told
}

/// Whether Herdr's client tells what Herdr knows: its sessions, the state of the one that is to be
/// asked, and the processes of its panes; and paths lead where they lead.
pub open spec fn herdr_tells(
    world: spec_fn(RequestView) -> ReplyView,
    timeout: u64,
    model: HerdrModel,
) -> bool {
    &&& names_session(model.sessions, model.session)
    &&& forall|line: CommandLineView| #[trigger]
        lists_sessions(line, timeout) ==> is_read(
            world,
            line,
            |stdout: Seq<u8>| RequestView::DecodeSessions(stdout),
            ReplyView::Sessions(Ok(model.sessions)),
        )
    &&& forall|line: CommandLineView| #[trigger]
        describes_session(line, model.session, timeout) ==> is_read(
            world,
            line,
            |stdout: Seq<u8>| RequestView::DecodeSnapshot(stdout),
            ReplyView::Snapshot(
                Ok(
                    SnapshotDocumentView {
                        kind: "session_snapshot"@,
                        snapshot: model.snapshot,
                    },
                ),
            ),
        )
    &&& forall|line: CommandLineView, pane: Seq<char>| #[trigger]
        describes_processes(line, model.session, pane, timeout) ==> is_read(
            world,
            line,
            |stdout: Seq<u8>| RequestView::DecodeProcessInfo(stdout),
            ReplyView::ProcessInfo(
                Ok(
                    ProcessInfoDocumentView {
                        kind: "pane_process_info"@,
                        pane_id: pane,
                        shell_pid: Some((model.processes)(pane).0),
                        foreground_processes: (model.processes)(pane).1,
                    },
                ),
            ),
        )
    &&& forall|paths: Seq<Seq<u8>>|
        (#[trigger] world(RequestView::Resolve(paths))) matches ReplyView::Resolved(table)
            && tells_places(model.canon, paths, table)
}

proof fn lemma_running(sessions: Seq<HerdrSessionView>)
    ensures
        session::running_sessions(sessions).len() == 0 <==> forall|k: int|
            0 <= k < sessions.len() ==> !(#[trigger] sessions[k]).running,
        forall|name: Seq<char>|
            session::running_sessions(sessions) == seq![name] <==> #[trigger] only_running(
                sessions,
                name,
            ),
    decreases sessions.len(),
{
    if sessions.len() == 0 {
        assert(session::running_sessions(sessions).len() == 0);
        assert forall|name: Seq<char>|
            session::running_sessions(sessions) == seq![name] <==> #[trigger] only_running(
                sessions,
                name,
            ) by {
            assert(seq![name].len() == 1);
        }
    } else {
        let shorter = sessions.drop_last();
        let last = (sessions.len() - 1) as int;
        let before = session::running_sessions(shorter);
        let names = session::running_sessions(sessions);
        lemma_running(shorter);
        assert forall|k: int| 0 <= k < last implies #[trigger] shorter[k] == sessions[k] by {}
        if before.len() == 0 {
            assert forall|k: int| 0 <= k < last implies !(#[trigger] sessions[k]).running by {
                assert(!shorter[k].running);
            }
        } else {
            let k = choose|k: int| 0 <= k < shorter.len() && (#[trigger] shorter[k]).running;
            assert(sessions[k].running);
        }
        assert forall|name: Seq<char>|
            names == seq![name] <==> #[trigger] only_running(sessions, name) by {
            if names == seq![name] {
                if sessions[last].running {
                    assert(names == before.push(sessions[last].name));
                    assert(before.len() == 0);
                    assert(names[0] == sessions[last].name);
                    assert(only_running(sessions, name));
                } else {
                    assert(only_running(shorter, name));
                    let k = choose|k: int|
                        0 <= k < shorter.len() && (#[trigger] shorter[k]).running && shorter[k].name
                            == name && forall|j: int|
                            0 <= j < shorter.len() && j != k ==> !(#[trigger] shorter[j]).running;
                    assert(sessions[k].running);
                    assert forall|j: int| 0 <= j < sessions.len() && j != k implies !(
                    #[trigger] sessions[j]).running by {
                        if j < last {
                            assert(!shorter[j].running);
                        }
                    }
                }
            }
            if only_running(sessions, name) {
                let k = choose|k: int|
                    0 <= k < sessions.len() && (#[trigger] sessions[k]).running && sessions[k].name
                        == name && forall|j: int|
                        0 <= j < sessions.len() && j != k ==> !(#[trigger] sessions[j]).running;
                if k == last {
                    assert forall|j: int| 0 <= j < shorter.len() implies !(
                    #[trigger] shorter[j]).running by {
                        assert(!sessions[j].running);
                    }
                    assert(names =~= seq![name]);
                } else {
                    assert(!sessions[last].running);
                    assert(shorter[k].running);
                    assert forall|j: int| 0 <= j < shorter.len() && j != k implies !(
                    #[trigger] shorter[j]).running by {
                        assert(!sessions[j].running);
                    }
                    assert(only_running(shorter, name));
                }
            }
        }
    }
}

/// A session is named exactly where it is the only one that is running.
pub proof fn law_the_only_running_session_is_named(
    sessions: Seq<HerdrSessionView>,
    session: Option<Seq<char>>,
)
    ensures
        session::choose_session(sessions) == session <==> names_session(sessions, session),
{
    lemma_running(sessions);
    let names = session::running_sessions(sessions);
    if names.len() == 1 {
        assert(names =~= seq![names[0]]);
        assert(only_running(sessions, names[0]));
    }
    assert forall|name: Seq<char>| #[trigger] only_running(sessions, name) implies names.len() == 1
        && names[0] == name by {
        assert(names == seq![name]);
    }
}

proof fn lemma_herdr_lines(session: Option<Seq<char>>, id: Seq<char>, timeout: u64)
    ensures
        runs_herdr(
            session::snapshot_command(session, timeout),
            session,
            seq!["api"@, "snapshot"@],
            timeout,
        ),
        runs_herdr(
            session::process_command(session, id, timeout),
            session,
            seq!["pane"@, "process-info"@, "--pane"@, id],
            timeout,
        ),
        runs_herdr(
            session::close_command(session, id, timeout),
            session,
            seq!["workspace"@, "close"@, id],
            timeout,
        ),
{
}

/// The command that closes a workspace is Herdr's, in the session that the workspace was found in.
pub proof fn law_workspaces_are_closed_by_name(
    session: Option<Seq<char>>,
    workspace: Seq<char>,
    timeout: u64,
)
    ensures
        laws::attempt_flow(session, workspace, timeout, Seq::empty(), 0) matches Flow::Ask(
            RequestView::Run(line),
        ) && runs_herdr(line, session, seq!["workspace"@, "close"@, workspace], timeout),
{
    lemma_herdr_lines(session, workspace, timeout);
}

/// A workspace counts as closed exactly when the command succeeded and its document says so: with a
/// plain acknowledgement, or with one that names the workspace.
pub proof fn law_workspaces_are_closed_when_acknowledged(
    session: Option<Seq<char>>,
    workspace: Seq<char>,
    timeout: u64,
    result: CommandResultView,
    told: ReplyView,
)
    ensures
        (laws::attempt_flow(
            session,
            workspace,
            timeout,
            seq![ReplyView::Command(result), told],
            0,
        ) matches Flow::Done(None, _)) <==> {
            &&& result matches CommandResultView::Exited { code, .. } && code == Some(0i32)
            &&& told matches ReplyView::Acknowledgement(Ok(document)) && (document.kind == "ok"@ || (
            document.kind == "workspace_closed"@ && document.workspace_id == Some(workspace)))
        },
{
}

proof fn lemma_insert_number(numbers: Seq<u32>, number: u32, other: u32)
    ensures
        text::insert_number(numbers, number).contains(other) <==> numbers.contains(other) || other
            == number,
    decreases numbers.len(),
{
    if numbers.len() == 0 {
        assert(text::insert_number(numbers, number)[0] == number);
        assert(!numbers.contains(other));
        if other == number {
            assert(seq![number].contains(other));
        }
    } else if numbers.last() == number {
        assert(numbers[numbers.len() - 1] == number);
    } else if numbers.last() < number {
        lemma_push_number(numbers, number, other);
    } else {
        let shorter = numbers.drop_last();
        lemma_insert_number(shorter, number, other);
        lemma_push_number(text::insert_number(shorter, number), numbers.last(), other);
        lemma_push_number(shorter, numbers.last(), other);
        assert(shorter.push(numbers.last()) =~= numbers);
    }
}

proof fn lemma_push_number(numbers: Seq<u32>, number: u32, other: u32)
    ensures
        numbers.push(number).contains(other) <==> numbers.contains(other) || other == number,
{
    let longer = numbers.push(number);
    if numbers.contains(other) {
        let i = choose|i: int| 0 <= i < numbers.len() && numbers[i] == other;
        assert(longer[i] == other);
    }
    if other == number {
        assert(longer[numbers.len() as int] == other);
    }
    if longer.contains(other) {
        let i = choose|i: int| 0 <= i < longer.len() && longer[i] == other;
        if i < numbers.len() {
            assert(numbers[i] == other);
        }
    }
}

proof fn lemma_insert_all(processes: Seq<u32>, more: Seq<u32>, other: u32)
    ensures
        session::insert_all(processes, more).contains(other) <==> processes.contains(other)
            || more.contains(other),
    decreases more.len(),
{
    if more.len() > 0 {
        let shorter = more.drop_last();
        lemma_insert_all(processes, shorter, other);
        lemma_insert_number(session::insert_all(processes, shorter), more.last(), other);
        lemma_push_number(shorter, more.last(), other);
        assert(shorter.push(more.last()) =~= more);
    }
}

/// Whether a process belongs to one of the first `n` panes: as its shell or in its foreground.
pub open spec fn of_panes(model: HerdrModel, panes: Seq<Seq<char>>, n: int, process: u32) -> bool {
    exists|i: int|
        0 <= i < n && ((model.processes)(#[trigger] panes[i]).0 == process || (model.processes)(
            panes[i],
        ).1.contains(process))
}

/// The inspection of a candidate, as a function of the replies.
pub open spec fn inspecting(candidate: Seq<u8>, timeout: u64) -> spec_fn(Seq<ReplyView>) -> Flow<
    Result<CandidateStatusView, InspectionErrorView>,
> {
    |replies: Seq<ReplyView>| herdr::inspect_candidate_flow(candidate, timeout, replies, 0)
}

/// What an inspection ends in, of the processes that were found.
spec fn with_processes(
    coordination: CoordinationView,
    found: Flow<Result<Seq<u32>, InspectionErrorView>>,
) -> Flow<Result<CandidateStatusView, InspectionErrorView>> {
    match found {
        Flow::Ask(request) => Flow::Ask(request),
        Flow::Done(Err(error), next) => Flow::Done(Err(error), next),
        Flow::Done(Ok(processes), next) => Flow::Done(
            Ok(CandidateStatusView::Clear(CoordinationView { processes, ..coordination })),
            next,
        ),
    }
}

/// Whether the replies so far have brought an inspection up to the processes of a pane.
spec fn has_come_to(
    candidate: Seq<u8>,
    timeout: u64,
    coordination: CoordinationView,
    i: int,
    processes: Seq<u32>,
    replies: Seq<ReplyView>,
) -> bool {
    forall|longer: Seq<ReplyView>|
        replies.is_prefix_of(longer) ==> #[trigger] inspecting(candidate, timeout)(longer)
            == with_processes(
            coordination,
            session::processes_flow(
                coordination.session,
                coordination.panes,
                i,
                processes,
                timeout,
                longer,
                replies.len() as int,
            ),
        )
}

proof fn lemma_processes(
    world: spec_fn(RequestView) -> ReplyView,
    candidate: Seq<u8>,
    timeout: u64,
    model: HerdrModel,
    coordination: CoordinationView,
    i: int,
    processes: Seq<u32>,
    replies: Seq<ReplyView>,
    more: nat,
)
    requires
        herdr_tells(world, timeout, model),
        coordination.session == model.session,
        0 <= i <= coordination.panes.len(),
        more >= 2 * (coordination.panes.len() - i),
        has_come_to(candidate, timeout, coordination, i, processes, replies),
        forall|process: u32| #[trigger]
            processes.contains(process) <==> of_panes(model, coordination.panes, i, process),
    ensures
        flow::answered(inspecting(candidate, timeout), world, replies, more) matches Some(result)
            && (result matches Ok(CandidateStatusView::Clear(found)) && found.session
            == coordination.session && found.workspaces == coordination.workspaces && found.panes
            == coordination.panes && forall|process: u32| #[trigger]
            found.processes.contains(process) <==> of_panes(
                model,
                coordination.panes,
                coordination.panes.len() as int,
                process,
            )),
    decreases coordination.panes.len() - i,
{
    let work = inspecting(candidate, timeout);
    let panes = coordination.panes;
    let at = replies.len() as int;
    assert(work(replies) == with_processes(
        coordination,
        session::processes_flow(coordination.session, panes, i, processes, timeout, replies, at),
    ));
    if i < panes.len() {
        let line = session::process_command(coordination.session, panes[i], timeout);
        lemma_herdr_lines(coordination.session, panes[i], timeout);
        let asked0 = RequestView::Run(line);
        let decode = |stdout: Seq<u8>| RequestView::DecodeProcessInfo(stdout);
        let document = ProcessInfoDocumentView {
            kind: "pane_process_info"@,
            pane_id: panes[i],
            shell_pid: Some((model.processes)(panes[i]).0),
            foreground_processes: (model.processes)(panes[i]).1,
        };
        assert(describes_processes(line, coordination.session, panes[i], timeout));
        assert(is_read(world, line, decode, ReplyView::ProcessInfo(Ok(document))));
        let stdout = world(asked0)->Command_0->stdout;
        let asked1 = RequestView::DecodeProcessInfo(stdout);
        assert(world(asked1) == ReplyView::ProcessInfo(Ok(document)));
        let replies1 = replies.push(world(asked0));
        let replies2 = replies1.push(world(asked1));
        flow::lemma_answered_asks(work, world, replies, more, asked0);
        assert(replies.is_prefix_of(replies1));
        assert(replies1[at] == world(asked0));
        assert(work(replies1) == Flow::<
            Result<CandidateStatusView, InspectionErrorView>,
        >::Ask(asked1));
        flow::lemma_answered_asks(work, world, replies1, (more - 1) as nat, asked1);
        let shell = (model.processes)(panes[i]).0;
        let others = (model.processes)(panes[i]).1;
        let next = session::insert_all(text::insert_number(processes, shell), others);
        assert forall|longer: Seq<ReplyView>| replies2.is_prefix_of(longer) implies
            #[trigger] inspecting(candidate, timeout)(longer) == with_processes(
            coordination,
            session::processes_flow(
                coordination.session,
                panes,
                i + 1,
                next,
                timeout,
                longer,
                replies2.len() as int,
            ),
        ) by {
            assert(replies.is_prefix_of(longer)) by {
                assert forall|j: int| 0 <= j < replies.len() implies replies[j]
                    == #[trigger] longer[j] by {
                    assert(replies2[j] == longer[j]);
                }
                assert(replies =~= longer.take(at));
            }
            assert(longer[at] == replies2[at]);
            assert(longer[at + 1] == replies2[at + 1]);
        }
        assert(has_come_to(candidate, timeout, coordination, i + 1, next, replies2));
        assert forall|process: u32| #[trigger] next.contains(process) <==> of_panes(
            model,
            panes,
            i + 1,
            process,
        ) by {
            lemma_insert_all(text::insert_number(processes, shell), others, process);
            lemma_insert_number(processes, shell, process);
            assert(processes.contains(process) <==> of_panes(model, panes, i, process));
            if of_panes(model, panes, i, process) {
                let k = choose|k: int|
                    0 <= k < i && ((model.processes)(#[trigger] panes[k]).0 == process || (
                    model.processes)(panes[k]).1.contains(process));
                assert((model.processes)(panes[k]).0 == process || (model.processes)(
                    panes[k],
                ).1.contains(process));
            }
            if shell == process || others.contains(process) {
                assert((model.processes)(panes[i]).0 == process || (model.processes)(
                    panes[i],
                ).1.contains(process));
            }
            if of_panes(model, panes, i + 1, process) {
                let k = choose|k: int|
                    0 <= k < i + 1 && ((model.processes)(#[trigger] panes[k]).0 == process || (
                    model.processes)(panes[k]).1.contains(process));
                if k < i {
                    assert(of_panes(model, panes, i, process));
                }
            }
        }
        lemma_processes(
            world,
            candidate,
            timeout,
            model,
            coordination,
            i + 1,
            next,
            replies2,
            (more - 2) as nat,
        );
    }
}

/// The judgement on a candidate, where Herdr tells what it knows: it is clear exactly when nothing
/// speaks against it, what is retired with it is what belongs to it, and the processes that do not
/// count against it are those of its panes, and no others.
pub proof fn law_candidates_are_judged_by_what_herdr_knows(
    world: spec_fn(RequestView) -> ReplyView,
    candidate: Seq<u8>,
    timeout: u64,
    model: HerdrModel,
)
    requires
        herdr_tells(world, timeout, model),
    ensures
        exists|more: nat|
            (#[trigger] flow::answered(
                inspecting(candidate, timeout),
                world,
                Seq::empty(),
                more,
            )) matches Some(result) && judged(candidate, model, result),
{
    let work = inspecting(candidate, timeout);
    law_the_only_running_session_is_named(model.sessions, model.session);
    lemma_herdr_lines(model.session, Seq::empty(), timeout);
    let list = crate::command::plain_command(
        "herdr"@,
        seq!["session"@, "list"@, "--json"@],
        timeout,
    );
    assert(lists_sessions(list, timeout));
    let asked0 = RequestView::Run(list);
    let listed = world(asked0)->Command_0->stdout;
    let decode0 = |stdout: Seq<u8>| RequestView::DecodeSessions(stdout);
    assert(is_read(world, list, decode0, ReplyView::Sessions(Ok(model.sessions))));
    let asked1 = RequestView::DecodeSessions(listed);
    let line = session::snapshot_command(model.session, timeout);
    let asked2 = RequestView::Run(line);
    let printed = world(asked2)->Command_0->stdout;
    let decode2 = |stdout: Seq<u8>| RequestView::DecodeSnapshot(stdout);
    let document = SnapshotDocumentView { kind: "session_snapshot"@, snapshot: model.snapshot };
    assert(describes_session(line, model.session, timeout));
    assert(is_read(world, line, decode2, ReplyView::Snapshot(Ok(document))));
    let asked3 = RequestView::DecodeSnapshot(printed);
    let paths = session::mentioned_paths(seq![candidate], model.snapshot);
    let asked4 = RequestView::Resolve(paths);
    let replies0 = Seq::<ReplyView>::empty();
    let replies1 = replies0.push(world(asked0));
    let replies2 = replies1.push(world(asked1));
    let replies3 = replies2.push(world(asked2));
    let replies4 = replies3.push(world(asked3));
    let replies5 = replies4.push(world(asked4));
    let table = world(asked4)->Resolved_0;
    assert(tells_places(model.canon, paths, table));
    law_checkouts_are_clear_where_nobody_is(
        model.canon,
        model.snapshot,
        candidate,
        model.session,
        table,
    );
    let status = evaluation::snapshot_status(table, model.snapshot, candidate, model.session);
    let count = match status {
        Ok(CandidateStatusView::Clear(coordination)) => 2 * coordination.panes.len(),
        _ => 0,
    };
    let more = (5 + count) as nat;
    lemma_first_replies(
        candidate,
        timeout,
        model,
        world(asked0),
        listed,
        world(asked2),
        printed,
        paths,
        table,
    );
    flow::lemma_answered_asks(work, world, replies0, more, asked0);
    flow::lemma_answered_asks(work, world, replies1, (more - 1) as nat, asked1);
    flow::lemma_answered_asks(work, world, replies2, (more - 2) as nat, asked2);
    flow::lemma_answered_asks(work, world, replies3, (more - 3) as nat, asked3);
    flow::lemma_answered_asks(work, world, replies4, (more - 4) as nat, asked4);
    assert(replies5 =~= seq![
        world(asked0),
        ReplyView::Sessions(Ok(model.sessions)),
        world(asked2),
        ReplyView::Snapshot(Ok(document)),
        ReplyView::Resolved(table),
    ]);
    match status {
        Ok(CandidateStatusView::Clear(coordination)) => {
            assert(has_come_to(candidate, timeout, coordination, 0, Seq::empty(), replies5));
            assert forall|process: u32| #[trigger] Seq::<u32>::empty().contains(process)
                <==> of_panes(model, coordination.panes, 0, process) by {}
            lemma_processes(
                world,
                candidate,
                timeout,
                model,
                coordination,
                0,
                Seq::empty(),
                replies5,
                count as nat,
            );
        },
        _ => {
            assert(work(replies5) is Done);
            flow::lemma_answered_done(work, world, replies5, 0);
        },
    }
    assert(flow::answered(work, world, replies0, more) matches Some(result) && judged(
        candidate,
        model,
        result,
    ));
}

/// The first replies of an inspection lead to the judgement.
proof fn lemma_first_replies(
    candidate: Seq<u8>,
    timeout: u64,
    model: HerdrModel,
    listing: ReplyView,
    listed: Seq<u8>,
    printing: ReplyView,
    printed: Seq<u8>,
    paths: Seq<Seq<u8>>,
    table: Seq<(Seq<u8>, Seq<u8>)>,
)
    requires
        listing matches ReplyView::Command(CommandResultView::Exited { code, stdout, .. }) && code
            == Some(0i32) && stdout == listed,
        printing matches ReplyView::Command(CommandResultView::Exited { code, stdout, .. }) && code
            == Some(0i32) && stdout == printed,
        session::choose_session(model.sessions) == model.session,
        paths == session::mentioned_paths(seq![candidate], model.snapshot),
    ensures
        ({
            let work = inspecting(candidate, timeout);
            let sessions = ReplyView::Sessions(Ok(model.sessions));
            let document = ReplyView::Snapshot(
                Ok(
                    SnapshotDocumentView {
                        kind: "session_snapshot"@,
                        snapshot: model.snapshot,
                    },
                ),
            );
            let none = Seq::<ReplyView>::empty();
            let status = evaluation::snapshot_status(
                table,
                model.snapshot,
                candidate,
                model.session,
            );
            &&& work(none) matches Flow::Ask(RequestView::Run(line)) && line
                == crate::command::plain_command(
                "herdr"@,
                seq!["session"@, "list"@, "--json"@],
                timeout,
            )
            &&& work(none.push(listing)) matches Flow::Ask(RequestView::DecodeSessions(document))
                && document == listed
            &&& work(none.push(listing).push(sessions)) matches Flow::Ask(RequestView::Run(line))
                && line == session::snapshot_command(model.session, timeout)
            &&& work(none.push(listing).push(sessions).push(printing)) matches Flow::Ask(
                RequestView::DecodeSnapshot(document),
            ) && document == printed
            &&& work(none.push(listing).push(sessions).push(printing).push(document))
                matches Flow::Ask(RequestView::Resolve(asked)) && asked == paths
            &&& forall|longer: Seq<ReplyView>|
                seq![
                    listing,
                    sessions,
                    printing,
                    document,
                    ReplyView::Resolved(table),
                ].is_prefix_of(longer) ==> #[trigger] work(longer) == match status {
                    Err(error) => Flow::Done(Err(error), 5),
                    Ok(status) => session::attribute_flow(status, timeout, longer, 5),
                }
        }),
{
    let work = inspecting(candidate, timeout);
    let sessions = ReplyView::Sessions(Ok(model.sessions));
    let document = ReplyView::Snapshot(
        Ok(SnapshotDocumentView { kind: "session_snapshot"@, snapshot: model.snapshot }),
    );
    let first = seq![listing, sessions, printing, document, ReplyView::Resolved(table)];
    let status = evaluation::snapshot_status(table, model.snapshot, candidate, model.session);
    assert forall|longer: Seq<ReplyView>| first.is_prefix_of(longer) implies #[trigger] work(longer)
        == match status {
        Err(error) => Flow::Done(Err(error), 5),
        Ok(status) => session::attribute_flow(status, timeout, longer, 5),
    } by {
        assert(longer[0] == first[0]);
        assert(longer[1] == first[1]);
        assert(longer[2] == first[2]);
        assert(longer[3] == first[3]);
        assert(longer[4] == first[4]);
    }
}

/// Whether the judgement on a candidate is the one that what Herdr knows leads to.
pub open spec fn judged(
    candidate: Seq<u8>,
    model: HerdrModel,
    result: Result<CandidateStatusView, InspectionErrorView>,
) -> bool {
    &&& (result matches Ok(CandidateStatusView::Clear(_))) <==> all_clear(
        model.canon,
        model.snapshot,
        candidate,
    )
    &&& result matches Ok(CandidateStatusView::Clear(coordination)) ==> {
        &&& retires(model.canon, model.snapshot, candidate, model.session, coordination)
        &&& forall|process: u32| #[trigger]
            coordination.processes.contains(process) <==> of_panes(
                model,
                coordination.panes,
                coordination.panes.len() as int,
                process,
            )
    }
    &&& result matches Ok(CandidateStatusView::FocusedPane { pane_id }) ==> exists|k: int|
        0 <= k < model.snapshot.panes.len() && (#[trigger] model.snapshot.panes[k]).id == pane_id
            && pane_counts(model.canon, model.snapshot, model.snapshot.panes[k], candidate)
            && has_focus(model.snapshot, model.snapshot.panes[k])
    &&& result matches Ok(CandidateStatusView::ActiveAgent { pane_id }) ==> at_work(
        model.canon,
        model.snapshot,
        candidate,
        pane_id,
    )
    &&& !(result matches Ok(CandidateStatusView::Unavailable))
}

/// Whether a place is a former checkout in Worktrunk's trash: it leads below `wt/trash` in the Git
/// common directory, to something whose name is the name of the checkout, a hyphen, and anything.
pub open spec fn trashed(
    canon: spec_fn(Seq<u8>) -> Option<Seq<u8>>,
    path: Seq<u8>,
    checkout: Seq<u8>,
    common: Seq<u8>,
) -> bool {
    let place = standing(canon, path);
    &&& filepath::path_within(
        place,
        standing(canon, filepath::joined(common, encode_utf8("wt/trash"@))),
    )
    &&& filepath::file_name(place) matches Some(name) && filepath::file_name(checkout) matches Some(
        checkout_name,
    ) && valid_utf8(name) && valid_utf8(checkout_name) && (checkout_name + seq![
        '-' as u8,
    ]).is_prefix_of(name)
}

/// Whether a place is nowhere but in a checkout that is gone.
pub open spec fn in_gone_checkout(
    canon: spec_fn(Seq<u8>) -> Option<Seq<u8>>,
    place: Option<Seq<u8>>,
    checkout: Seq<u8>,
    common: Seq<u8>,
) -> bool {
    place is None || here(canon, place, checkout) || trashed(canon, place->0, checkout, common)
}

/// Whether a workspace whose checkout is gone can be retired: it has a pane, and every pane of it
/// is known to be in the checkout, or in the trash as the checkout, and has no focus and no agent
/// that is anything but idle or done; nor has the workspace such an agent.
pub open spec fn retirable(
    canon: spec_fn(Seq<u8>) -> Option<Seq<u8>>,
    snapshot: SnapshotView,
    id: Seq<char>,
    checkout: Seq<u8>,
    common: Seq<u8>,
) -> bool {
    &&& exists|k: int|
        0 <= k < snapshot.panes.len() && (#[trigger] snapshot.panes[k]).workspace_id == id
    &&& forall|k: int|
        0 <= k < snapshot.panes.len() && (#[trigger] snapshot.panes[k]).workspace_id == id ==> {
            let pane = snapshot.panes[k];
            &&& !has_focus(snapshot, pane)
            &&& pane.agent is Some ==> (pane.status is Idle || pane.status is Done)
            &&& pane.cwd is Some || pane.foreground_cwd is Some
            &&& in_gone_checkout(canon, pane.cwd, checkout, common)
            &&& in_gone_checkout(canon, pane.foreground_cwd, checkout, common)
        }
    &&& forall|k: int|
        0 <= k < snapshot.agents.len() && (#[trigger] snapshot.agents[k]).workspace_id == id
            ==> snapshot.agents[k].status is Idle || snapshot.agents[k].status is Done
}

/// Whether a pane of a workspace that is gone stands in nobody's way.
spec fn stale_pane_quiet(
    table: Seq<(Seq<u8>, Seq<u8>)>,
    snapshot: SnapshotView,
    pane: PaneView,
    checkout: Seq<u8>,
    common: Seq<u8>,
) -> bool {
    pane_quiet(snapshot, pane) && stale::pane_belongs(table, pane, checkout, common)
}

proof fn lemma_stale_panes(
    table: Seq<(Seq<u8>, Seq<u8>)>,
    snapshot: SnapshotView,
    id: Seq<char>,
    checkout: Seq<u8>,
    common: Seq<u8>,
    i: int,
    ids: Seq<Seq<char>>,
)
    requires
        0 <= i,
    ensures
        (stale::scan_stale_panes(table, snapshot, id, checkout, common, i, ids) matches Ok(Ok(_)))
            <==> forall|k: int|
            i <= k < snapshot.panes.len() && (#[trigger] snapshot.panes[k]).workspace_id == id
                ==> stale_pane_quiet(table, snapshot, snapshot.panes[k], checkout, common),
        stale::scan_stale_panes(table, snapshot, id, checkout, common, i, ids) matches Ok(Ok(found))
            ==> forall|pane: Seq<char>| #[trigger]
            found.contains(pane) <==> ids.contains(pane) || exists|k: int|
                i <= k < snapshot.panes.len() && (#[trigger] snapshot.panes[k]).id == pane
                    && snapshot.panes[k].workspace_id == id,
        stale::scan_stale_panes(table, snapshot, id, checkout, common, i, ids) matches Ok(Err(veto))
            ==> exists|k: int|
            i <= k < snapshot.panes.len() && (#[trigger] snapshot.panes[k]).workspace_id == id
                && vetoed_by_pane(snapshot, snapshot.panes[k], veto),
    decreases snapshot.panes.len() - i,
{
    if i < snapshot.panes.len() {
        let pane = snapshot.panes[i];
        if pane.workspace_id != id {
            lemma_stale_panes(table, snapshot, id, checkout, common, i + 1, ids);
        } else {
            let more = ids.push(pane.id);
            lemma_stale_panes(table, snapshot, id, checkout, common, i + 1, more);
            assert forall|other: Seq<char>| #[trigger] more.contains(other) <==> ids.contains(other)
                || other == pane.id by {
                if ids.contains(other) {
                    let k = choose|k: int| 0 <= k < ids.len() && ids[k] == other;
                    assert(more[k] == other);
                }
                if other == pane.id {
                    assert(more[ids.len() as int] == other);
                }
                if more.contains(other) {
                    let k = choose|k: int| 0 <= k < more.len() && more[k] == other;
                    if k < ids.len() {
                        assert(ids[k] == other);
                    }
                }
            }
        }
    }
}

proof fn lemma_stale_agents(agents: Seq<AgentView>, id: Seq<char>, i: int)
    requires
        0 <= i,
    ensures
        stale::scan_stale_agents(agents, id, i) == Ok::<
            Option<CandidateStatusView>,
            InspectionErrorView,
        >(None) <==> forall|k: int|
            i <= k < agents.len() && (#[trigger] agents[k]).workspace_id == id ==> agents[k].status
                is Idle || agents[k].status is Done,
        stale::scan_stale_agents(agents, id, i) matches Ok(Some(veto)) ==> exists|k: int|
            i <= k < agents.len() && (#[trigger] agents[k]).workspace_id == id && (agents[k].status
                is Working || agents[k].status is Blocked) && veto == (
            CandidateStatusView::ActiveAgent { pane_id: agents[k].id }),
    decreases agents.len() - i,
{
    if i < agents.len() {
        lemma_stale_agents(agents, id, i + 1);
    }
}

proof fn lemma_place_gone(
    canon: spec_fn(Seq<u8>) -> Option<Seq<u8>>,
    table: Seq<(Seq<u8>, Seq<u8>)>,
    path: Seq<u8>,
    checkout: Seq<u8>,
    common: Seq<u8>,
)
    requires
        evaluation::resolve(table, path) == standing(canon, path),
        evaluation::resolve(table, checkout) == standing(canon, checkout),
        evaluation::resolve(table, filepath::joined(common, encode_utf8("wt/trash"@))) == standing(
            canon,
            filepath::joined(common, encode_utf8("wt/trash"@)),
        ),
    ensures
        stale::place_belongs(table, Some(path), checkout, common) == in_gone_checkout(
            canon,
            Some(path),
            checkout,
            common,
        ),
{
    if let Some(name) = filepath::file_name(checkout) {
        assert(name + seq!['-' as u8] =~= name.push(45u8));
    }
}

/// A workspace whose checkout is gone is found to be retirable exactly when it is, and then it alone
/// is retired, with its panes.
pub proof fn law_gone_workspaces_are_retired_where_nobody_is(
    canon: spec_fn(Seq<u8>) -> Option<Seq<u8>>,
    snapshot: SnapshotView,
    workspace: int,
    checkout: Seq<u8>,
    common: Seq<u8>,
    session: Option<Seq<char>>,
    table: Seq<(Seq<u8>, Seq<u8>)>,
)
    requires
        0 <= workspace < snapshot.workspaces.len(),
        snapshot.workspaces[workspace].worktree matches Some(worktree) && worktree.checkout_path
            == checkout,
        tells_places(
            canon,
            session::mentioned_paths(
                seq![common, filepath::joined(common, encode_utf8("wt/trash"@))],
                snapshot,
            ),
            table,
        ),
    ensures
        ({
            let id = snapshot.workspaces[workspace].workspace_id;
            let status = stale::stale_status(table, snapshot, id, checkout, common, session);
            &&& (status matches Ok(CandidateStatusView::Clear(_))) <==> retirable(
                canon,
                snapshot,
                id,
                checkout,
                common,
            )
            &&& status matches Ok(CandidateStatusView::Clear(coordination)) ==> {
                &&& coordination.session == session
                &&& coordination.workspaces == seq![id]
                &&& forall|pane: Seq<char>| #[trigger]
                    coordination.panes.contains(pane) <==> exists|k: int|
                        0 <= k < snapshot.panes.len() && (#[trigger] snapshot.panes[k]).id == pane
                            && snapshot.panes[k].workspace_id == id
            }
        }),
{
    let id = snapshot.workspaces[workspace].workspace_id;
    let trash = filepath::joined(common, encode_utf8("wt/trash"@));
    let first = seq![common, trash];
    laws::lemma_pane_workspaces(snapshot.panes, id);
    lemma_stale_panes(table, snapshot, id, checkout, common, 0, Seq::empty());
    lemma_stale_agents(snapshot.agents, id, 0);
    assert(first[1] == trash);
    assert(mentioned(first, snapshot, trash));
    lemma_mentioned(canon, first, snapshot, table, trash);
    assert(mentioned(first, snapshot, checkout));
    lemma_mentioned(canon, first, snapshot, table, checkout);
    assert forall|k: int| 0 <= k < snapshot.panes.len() implies stale_pane_quiet(
        table,
        snapshot,
        #[trigger] snapshot.panes[k],
        checkout,
        common,
    ) == {
        let pane = snapshot.panes[k];
        &&& !has_focus(snapshot, pane)
        &&& pane.agent is Some ==> (pane.status is Idle || pane.status is Done)
        &&& pane.cwd is Some || pane.foreground_cwd is Some
        &&& in_gone_checkout(canon, pane.cwd, checkout, common)
        &&& in_gone_checkout(canon, pane.foreground_cwd, checkout, common)
    } by {
        let pane = snapshot.panes[k];
        if let Some(path) = pane.cwd {
            assert(mentioned(first, snapshot, path));
            lemma_mentioned(canon, first, snapshot, table, path);
            lemma_place_gone(canon, table, path, checkout, common);
        }
        if let Some(path) = pane.foreground_cwd {
            assert(mentioned(first, snapshot, path));
            lemma_mentioned(canon, first, snapshot, table, path);
            lemma_place_gone(canon, table, path, checkout, common);
        }
    }
}

/// Whether a workspace is one whose checkout may be gone: it is for a linked checkout of the
/// repository, which Git no longer lists.
pub open spec fn may_be_gone(
    canon: spec_fn(Seq<u8>) -> Option<Seq<u8>>,
    worktree: WorkspaceWorktreeView,
    common: Seq<u8>,
    inventory: Seq<Seq<u8>>,
) -> bool {
    &&& worktree.is_linked_worktree == Some(true)
    &&& worktree.repo_key matches Some(key) && filepath::same_path(
        standing(canon, key),
        standing(canon, common),
    )
    &&& forall|i: int|
        0 <= i < inventory.len() ==> !filepath::same_path(
            #[trigger] inventory[i],
            worktree.checkout_path,
        )
}

/// A workspace is looked at exactly when its checkout may be gone, and nothing is done about it
/// where something is still there.
pub proof fn law_only_gone_checkouts_are_stale(
    canon: spec_fn(Seq<u8>) -> Option<Seq<u8>>,
    snapshot: SnapshotView,
    session: Option<Seq<char>>,
    common: Seq<u8>,
    inventory: Seq<Seq<u8>>,
    i: int,
    found: Seq<StaleWorkspaceView>,
    timeout: u64,
    replies: Seq<ReplyView>,
    at: int,
    table: Seq<(Seq<u8>, Seq<u8>)>,
)
    requires
        0 <= i < snapshot.workspaces.len(),
        snapshot.workspaces[i].worktree is Some,
        0 <= at <= replies.len(),
        tells_places(
            canon,
            session::mentioned_paths(
                seq![common, filepath::joined(common, encode_utf8("wt/trash"@))],
                snapshot,
            ),
            table,
        ),
    ensures
        ({
            let worktree = snapshot.workspaces[i].worktree->0;
            let step = stale::stale_flow(
                table,
                snapshot,
                session,
                common,
                inventory,
                i,
                found,
                timeout,
                replies,
                at,
            );
            let next = |used: int|
                stale::stale_flow(
                    table,
                    snapshot,
                    session,
                    common,
                    inventory,
                    i + 1,
                    found,
                    timeout,
                    replies,
                    at + used,
                );
            if !may_be_gone(canon, worktree, common, inventory) {
                step == next(0)
            } else if at == replies.len() {
                step matches Flow::Ask(RequestView::Exists(path)) && path == worktree.checkout_path
            } else {
                replies[at] != ReplyView::Exists(false) ==> step == next(1)
            }
        }),
{
    let first = seq![common, filepath::joined(common, encode_utf8("wt/trash"@))];
    let worktree = snapshot.workspaces[i].worktree->0;
    assert(first[0] == common);
    assert(mentioned(first, snapshot, common));
    lemma_mentioned(canon, first, snapshot, table, common);
    if let Some(key) = worktree.repo_key {
        assert(mentioned(first, snapshot, key));
        lemma_mentioned(canon, first, snapshot, table, key);
    }
    if filepath::holds_path(inventory, worktree.checkout_path) {
        let k = choose|k: int|
            0 <= k < inventory.len() && #[trigger] filepath::same_path(
                inventory[k],
                worktree.checkout_path,
            );
        assert(filepath::same_path(inventory[k], worktree.checkout_path));
    }
}

/// Where Herdr's client is missing, fails or runs too long, nothing is known, which is no error.
pub proof fn law_a_missing_herdr_is_no_error(
    candidate: Seq<u8>,
    timeout: u64,
    listing: CommandResultView,
    asking: CommandResultView,
)
    requires
        !(listing matches CommandResultView::Exited { code, .. } && code == Some(0i32)),
        !(asking matches CommandResultView::Exited { code, .. } && code == Some(0i32)),
    ensures
        herdr::inspect_candidate_flow(
            candidate,
            timeout,
            seq![ReplyView::Command(listing), ReplyView::Command(asking)],
            0,
        ) == Flow::<Result<CandidateStatusView, InspectionErrorView>>::Done(
            Ok(CandidateStatusView::Unavailable),
            2,
        ),
{
}

} // verus!
