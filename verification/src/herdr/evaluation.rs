//! What the state of a session says about a candidate.
use crate::command;
use crate::filepath;
use crate::filepath::FilePath;
use crate::flow;
use crate::herdr::{AgentStatus, AgentView, CandidateStatus, CandidateStatusView, Coordination};
use crate::herdr::{CoordinationView, InspectionError, InspectionErrorView, Pane, PaneView};
use crate::herdr::{Snapshot, SnapshotView, Workspace, WorkspaceView};
use crate::text;
use vstd::prelude::*;

verus! {

/// The path that `path` stands for: what `table` has for it, else the path itself.
pub open spec fn resolve(table: Seq<(Seq<u8>, Seq<u8>)>, path: Seq<u8>) -> Seq<u8>
    decreases table.len(),
{
    if table.len() == 0 {
        path
    } else if table[0].0 == path {
        table[0].1
    } else {
        resolve(table.skip(1), path)
    }
}

pub(crate) fn resolve_path(
    table: &Vec<(FilePath, FilePath)>,
    path: &FilePath,
) -> (resolved: FilePath)
    ensures
        resolved@ == resolve(table.deep_view(), path@),
{
    let ghost all = table.deep_view();
    let mut i: usize = 0;
    assert(all.skip(0) =~= all);
    while i < table.len()
        invariant
            i <= table.len(),
            all == table.deep_view(),
            resolve(table.deep_view(), path@) == resolve(all.skip(i as int), path@),
        decreases table.len() - i,
    {
        assert(all.skip(i as int)[0] == (table[i as int].0@, table[i as int].1@));
        assert(all.skip(i as int).skip(1) =~= all.skip(i + 1));
        if text::same_bytes(table[i].0.bytes.as_slice(), path.bytes.as_slice()) {
            return table[i].1.clone();
        }
        i += 1;
    }
    path.clone()
}

/// Whether `path` stands for `base` or something below it.
pub open spec fn resolves_within(
    table: Seq<(Seq<u8>, Seq<u8>)>,
    path: Seq<u8>,
    base: Seq<u8>,
) -> bool {
    filepath::path_within(resolve(table, path), resolve(table, base))
}

pub(crate) fn path_is_within(
    table: &Vec<(FilePath, FilePath)>,
    path: &FilePath,
    base: &FilePath,
) -> (result: bool)
    ensures
        result == resolves_within(table.deep_view(), path@, base@),
{
    resolve_path(table, path).is_within(&resolve_path(table, base))
}

/// Whether there is a path, and it stands for `base` or something below it.
pub open spec fn option_within(
    table: Seq<(Seq<u8>, Seq<u8>)>,
    path: Option<Seq<u8>>,
    base: Seq<u8>,
) -> bool {
    path matches Some(path) && resolves_within(table, path, base)
}

fn path_option_is_within(
    table: &Vec<(FilePath, FilePath)>,
    path: &Option<FilePath>,
    base: &FilePath,
) -> (result: bool)
    ensures
        result == option_within(table.deep_view(), path.deep_view(), base@),
{
    match path {
        None => false,
        Some(path) => path_is_within(table, path, base),
    }
}

/// Whether a pane is in a checkout.
pub open spec fn pane_within(
    table: Seq<(Seq<u8>, Seq<u8>)>,
    pane: PaneView,
    candidate: Seq<u8>,
) -> bool {
    option_within(table, pane.cwd, candidate) || option_within(
        table,
        pane.foreground_cwd,
        candidate,
    )
}

fn pane_matches(
    table: &Vec<(FilePath, FilePath)>,
    pane: &Pane,
    candidate: &FilePath,
) -> (result: bool)
    ensures
        result == pane_within(table.deep_view(), pane.deep_view(), candidate@),
{
    path_option_is_within(table, &pane.cwd, candidate) || path_option_is_within(
        table,
        &pane.foreground_cwd,
        candidate,
    )
}

/// Whether it is known where a pane is.
pub open spec fn located(pane: PaneView) -> bool {
    pane.cwd is Some || pane.foreground_cwd is Some
}

/// The workspaces whose checkouts are in `candidate`, in order, each once.
pub open spec fn candidate_workspaces(
    table: Seq<(Seq<u8>, Seq<u8>)>,
    workspaces: Seq<WorkspaceView>,
    candidate: Seq<u8>,
) -> Seq<Seq<char>>
    decreases workspaces.len(),
{
    if workspaces.len() == 0 {
        Seq::empty()
    } else {
        let before = candidate_workspaces(table, workspaces.drop_last(), candidate);
        match workspaces.last().worktree {
            Some(worktree) if resolves_within(table, worktree.checkout_path, candidate) => {
                text::insert_text(before, workspaces.last().workspace_id)
            },
            _ => before,
        }
    }
}

fn find_candidate_workspaces(
    table: &Vec<(FilePath, FilePath)>,
    workspaces: &Vec<Workspace>,
    candidate: &FilePath,
) -> (ids: Vec<String>)
    ensures
        ids.deep_view() == candidate_workspaces(
            table.deep_view(),
            workspaces.deep_view(),
            candidate@,
        ),
{
    let ghost all = workspaces.deep_view();
    let mut ids = command::new_texts();
    let mut i: usize = 0;
    assert(all.take(0) =~= Seq::empty());
    while i < workspaces.len()
        invariant
            i <= workspaces.len(),
            all == workspaces.deep_view(),
            ids.deep_view() == candidate_workspaces(
                table.deep_view(),
                all.take(i as int),
                candidate@,
            ),
        decreases workspaces.len() - i,
    {
        let workspace = &workspaces[i];
        assert(all.take(i + 1).drop_last() =~= all.take(i as int));
        assert(all.take(i + 1).last() == workspace.deep_view());
        if let Some(worktree) = &workspace.worktree {
            if path_is_within(table, &worktree.checkout_path, candidate) {
                ids = text::insert_sorted(ids, workspace.workspace_id.as_str());
            }
        }
        i += 1;
    }
    assert(all.take(i as int) =~= all);
    ids
}

/// The workspaces of the panes, in order, each once.
pub open spec fn pane_workspaces(panes: Seq<PaneView>) -> Seq<Seq<char>>
    decreases panes.len(),
{
    if panes.len() == 0 {
        Seq::empty()
    } else {
        text::insert_text(pane_workspaces(panes.drop_last()), panes.last().workspace_id)
    }
}

pub(crate) fn find_pane_workspaces(panes: &Vec<Pane>) -> (ids: Vec<String>)
    ensures
        ids.deep_view() == pane_workspaces(panes.deep_view()),
{
    let ghost all = panes.deep_view();
    let mut ids = command::new_texts();
    let mut i: usize = 0;
    assert(all.take(0) =~= Seq::empty());
    while i < panes.len()
        invariant
            i <= panes.len(),
            all == panes.deep_view(),
            ids.deep_view() == pane_workspaces(all.take(i as int)),
        decreases panes.len() - i,
    {
        assert(all.take(i + 1).drop_last() =~= all.take(i as int));
        assert(all.take(i + 1).last() == panes[i as int].deep_view());
        ids = text::insert_sorted(ids, panes[i].workspace_id.as_str());
        i += 1;
    }
    assert(all.take(i as int) =~= all);
    ids
}

/// Whether a pane of the workspace is in the checkout.
pub open spec fn has_candidate_pane(
    table: Seq<(Seq<u8>, Seq<u8>)>,
    panes: Seq<PaneView>,
    id: Seq<char>,
    candidate: Seq<u8>,
) -> bool {
    exists|i: int|
        0 <= i < panes.len() && (#[trigger] panes[i]).workspace_id == id && pane_within(
            table,
            panes[i],
            candidate,
        )
}

/// Whether every pane of the workspace is in the checkout.
pub open spec fn all_panes_within(
    table: Seq<(Seq<u8>, Seq<u8>)>,
    panes: Seq<PaneView>,
    id: Seq<char>,
    candidate: Seq<u8>,
) -> bool {
    forall|i: int|
        0 <= i < panes.len() && (#[trigger] panes[i]).workspace_id == id ==> pane_within(
            table,
            panes[i],
            candidate,
        )
}

fn scan_workspace(
    table: &Vec<(FilePath, FilePath)>,
    panes: &Vec<Pane>,
    id: &str,
    candidate: &FilePath,
) -> (found: (bool, bool))
    ensures
        found.0 == has_candidate_pane(table.deep_view(), panes.deep_view(), id@, candidate@),
        found.1 == all_panes_within(table.deep_view(), panes.deep_view(), id@, candidate@),
{
    let ghost all = panes.deep_view();
    let mut some = false;
    let mut every = true;
    let mut i: usize = 0;
    while i < panes.len()
        invariant
            i <= panes.len(),
            all == panes.deep_view(),
            some ==> has_candidate_pane(table.deep_view(), all, id@, candidate@),
            !some ==> forall|j: int|
                0 <= j < i && (#[trigger] all[j]).workspace_id == id@ ==> !pane_within(
                    table.deep_view(),
                    all[j],
                    candidate@,
                ),
            !every ==> !all_panes_within(table.deep_view(), all, id@, candidate@),
            every ==> forall|j: int|
                0 <= j < i && (#[trigger] all[j]).workspace_id == id@ ==> pane_within(
                    table.deep_view(),
                    all[j],
                    candidate@,
                ),
        decreases panes.len() - i,
    {
        assert(all[i as int] == panes[i as int].deep_view());
        if text::same_text(panes[i].workspace_id.as_str(), id) {
            if pane_matches(table, &panes[i], candidate) {
                some = true;
            } else {
                every = false;
            }
        }
        i += 1;
    }
    (some, every)
}

/// The first pane of the workspace, from `i` on, of which it is not known where it is.
pub open spec fn first_lost_pane(panes: Seq<PaneView>, id: Seq<char>, i: int) -> Option<PaneView>
    decreases panes.len() - i,
{
    if i >= panes.len() {
        None
    } else if panes[i].workspace_id == id && !located(panes[i]) {
        Some(panes[i])
    } else {
        first_lost_pane(panes, id, i + 1)
    }
}

/// The first pane of the workspace, from `i` on, that is not in the checkout.
pub open spec fn first_other_pane(
    table: Seq<(Seq<u8>, Seq<u8>)>,
    panes: Seq<PaneView>,
    id: Seq<char>,
    candidate: Seq<u8>,
    i: int,
) -> Option<PaneView>
    decreases panes.len() - i,
{
    if i >= panes.len() {
        None
    } else if panes[i].workspace_id == id && !pane_within(table, panes[i], candidate) {
        Some(panes[i])
    } else {
        first_other_pane(table, panes, id, candidate, i + 1)
    }
}

fn find_lost_pane(panes: &Vec<Pane>, id: &str) -> (found: Option<usize>)
    ensures
        found is Some <==> first_lost_pane(panes.deep_view(), id@, 0) is Some,
        found matches Some(i) ==> i < panes.len() && panes[i as int].deep_view()
            == first_lost_pane(panes.deep_view(), id@, 0)->0,
{
    let ghost all = panes.deep_view();
    let mut i: usize = 0;
    while i < panes.len()
        invariant
            i <= panes.len(),
            all == panes.deep_view(),
            first_lost_pane(all, id@, 0) == first_lost_pane(all, id@, i as int),
        decreases panes.len() - i,
    {
        assert(all[i as int] == panes[i as int].deep_view());
        if text::same_text(panes[i].workspace_id.as_str(), id) && panes[i].cwd.is_none()
            && panes[i].foreground_cwd.is_none() {
            return Some(i);
        }
        i += 1;
    }
    None
}

fn find_other_pane(
    table: &Vec<(FilePath, FilePath)>,
    panes: &Vec<Pane>,
    id: &str,
    candidate: &FilePath,
) -> (found: Option<usize>)
    ensures
        found is Some <==> first_other_pane(
            table.deep_view(),
            panes.deep_view(),
            id@,
            candidate@,
            0,
        ) is Some,
        found matches Some(i) ==> i < panes.len() && panes[i as int].deep_view()
            == first_other_pane(table.deep_view(), panes.deep_view(), id@, candidate@, 0)->0,
{
    let ghost all = panes.deep_view();
    let mut i: usize = 0;
    while i < panes.len()
        invariant
            i <= panes.len(),
            all == panes.deep_view(),
            first_other_pane(table.deep_view(), all, id@, candidate@, 0) == first_other_pane(
                table.deep_view(),
                all,
                id@,
                candidate@,
                i as int,
            ),
        decreases panes.len() - i,
    {
        assert(all[i as int] == panes[i as int].deep_view());
        if text::same_text(panes[i].workspace_id.as_str(), id) && !pane_matches(
            table,
            &panes[i],
            candidate,
        ) {
            return Some(i);
        }
        i += 1;
    }
    None
}

/// What speaks against a workspace that has to do with the checkout, by its description or by one
/// of its panes: a pane that is somewhere unknown or elsewhere.
pub open spec fn workspace_error(
    table: Seq<(Seq<u8>, Seq<u8>)>,
    panes: Seq<PaneView>,
    id: Seq<char>,
    candidate: Seq<u8>,
    described: bool,
) -> Option<InspectionErrorView> {
    if !described && !has_candidate_pane(table, panes, id, candidate) {
        None
    } else {
        match first_lost_pane(panes, id, 0) {
            Some(pane) => Some(
                InspectionErrorView::IncompleteActivity(
                    "pane "@ + pane.id + " has no current-directory data"@,
                ),
            ),
            None => match first_other_pane(table, panes, id, candidate, 0) {
                Some(pane) => Some(
                    InspectionErrorView::IncompleteActivity(
                        "workspace "@ + id + " contains unrelated pane "@ + pane.id,
                    ),
                ),
                None => None,
            },
        }
    }
}

fn check_workspace(
    table: &Vec<(FilePath, FilePath)>,
    panes: &Vec<Pane>,
    id: &str,
    candidate: &FilePath,
    described: bool,
) -> (error: Option<InspectionError>)
    ensures
        error.deep_view() == workspace_error(
            table.deep_view(),
            panes.deep_view(),
            id@,
            candidate@,
            described,
        ),
{
    let (some, _) = scan_workspace(table, panes, id, candidate);
    if !described && !some {
        return None;
    }
    if let Some(lost) = find_lost_pane(panes, id) {
        return Some(
            InspectionError::IncompleteActivity(
                text::concat3(
                    "pane ",
                    panes[lost].id.as_str(),
                    " has no current-directory data",
                ),
            ),
        );
    }
    if let Some(other) = find_other_pane(table, panes, id, candidate) {
        return Some(
            InspectionError::IncompleteActivity(
                text::concat4(
                    "workspace ",
                    id,
                    " contains unrelated pane ",
                    panes[other].id.as_str(),
                ),
            ),
        );
    }
    None
}

/// The first thing that speaks against one of the workspaces `ids`, from number `i` on.
pub open spec fn workspaces_error(
    table: Seq<(Seq<u8>, Seq<u8>)>,
    panes: Seq<PaneView>,
    ids: Seq<Seq<char>>,
    described: Seq<Seq<char>>,
    candidate: Seq<u8>,
    i: int,
) -> Option<InspectionErrorView>
    decreases ids.len() - i,
{
    if i >= ids.len() {
        None
    } else {
        match workspace_error(table, panes, ids[i], candidate, described.contains(ids[i])) {
            Some(error) => Some(error),
            None => workspaces_error(table, panes, ids, described, candidate, i + 1),
        }
    }
}

/// The complaint about the first of the workspaces, from number `i` on, that has no pane.
pub open spec fn empty_error(panes: Seq<PaneView>, ids: Seq<Seq<char>>, i: int) -> Option<
    InspectionErrorView,
>
    decreases ids.len() - i,
{
    if i >= ids.len() {
        None
    } else if !pane_workspaces(panes).contains(ids[i]) {
        Some(
            InspectionErrorView::IncompleteActivity(
                "workspace "@ + ids[i] + " has no pane activity data"@,
            ),
        )
    } else {
        empty_error(panes, ids, i + 1)
    }
}

/// What speaks against relying on the workspaces that have to do with the checkout.
pub open spec fn candidate_error(
    table: Seq<(Seq<u8>, Seq<u8>)>,
    snapshot: SnapshotView,
    candidate: Seq<u8>,
) -> Option<InspectionErrorView> {
    let described = candidate_workspaces(table, snapshot.workspaces, candidate);
    match workspaces_error(
        table,
        snapshot.panes,
        pane_workspaces(snapshot.panes),
        described,
        candidate,
        0,
    ) {
        Some(error) => Some(error),
        None => empty_error(snapshot.panes, described, 0),
    }
}

fn validate_candidate_workspaces(
    table: &Vec<(FilePath, FilePath)>,
    snapshot: &Snapshot,
    candidate: &FilePath,
    described: &Vec<String>,
) -> (error: Option<InspectionError>)
    requires
        described.deep_view() == candidate_workspaces(
            table.deep_view(),
            snapshot.deep_view().workspaces,
            candidate@,
        ),
    ensures
        error.deep_view() == candidate_error(
            table.deep_view(),
            snapshot.deep_view(),
            candidate@,
        ),
{
    let ids = find_pane_workspaces(&snapshot.panes);
    let ghost all = ids.deep_view();
    let ghost panes = snapshot.panes.deep_view();
    let ghost goal = candidate_error(table.deep_view(), snapshot.deep_view(), candidate@);
    let mut i: usize = 0;
    while i < ids.len()
        invariant
            i <= ids.len(),
            all == ids.deep_view(),
            all == pane_workspaces(panes),
            panes == snapshot.panes.deep_view(),
            goal == candidate_error(table.deep_view(), snapshot.deep_view(), candidate@),
            described.deep_view() == candidate_workspaces(
                table.deep_view(),
                snapshot.deep_view().workspaces,
                candidate@,
            ),
            workspaces_error(
                table.deep_view(),
                panes,
                all,
                described.deep_view(),
                candidate@,
                0,
            ) == workspaces_error(
                table.deep_view(),
                panes,
                all,
                described.deep_view(),
                candidate@,
                i as int,
            ),
        decreases ids.len() - i,
    {
        assert(all[i as int] == ids[i as int]@);
        let is_described = text::contains_text(described, ids[i].as_str());
        match check_workspace(table, &snapshot.panes, ids[i].as_str(), candidate, is_described) {
            Some(error) => return Some(error),
            None => {},
        }
        i += 1;
    }
    let mut k: usize = 0;
    while k < described.len()
        invariant
            k <= described.len(),
            all == ids.deep_view(),
            all == pane_workspaces(panes),
            panes == snapshot.panes.deep_view(),
            goal == candidate_error(table.deep_view(), snapshot.deep_view(), candidate@),
            goal == empty_error(panes, described.deep_view(), k as int),
        decreases described.len() - k,
    {
        assert(described.deep_view()[k as int] == described[k as int]@);
        if !text::contains_text(&ids, described[k].as_str()) {
            return Some(
                InspectionError::IncompleteActivity(
                    text::concat3(
                        "workspace ",
                        described[k].as_str(),
                        " has no pane activity data",
                    ),
                ),
            );
        }
        k += 1;
    }
    None
}

/// What the status of an agent says about the removal of its checkout.
pub open spec fn activity_veto(
    status: AgentStatus,
    pane_id: Seq<char>,
    source: Seq<char>,
) -> Result<Option<CandidateStatusView>, InspectionErrorView> {
    match status {
        AgentStatus::Working => Ok(Some(CandidateStatusView::ActiveAgent { pane_id })),
        AgentStatus::Blocked => Ok(Some(CandidateStatusView::ActiveAgent { pane_id })),
        AgentStatus::Unknown => Err(
            InspectionErrorView::IncompleteActivity(
                source + " in pane "@ + pane_id + " has unknown state"@,
            ),
        ),
        AgentStatus::Idle => Ok(None),
        AgentStatus::Done => Ok(None),
    }
}

pub(crate) fn check_activity(status: AgentStatus, pane_id: &str, source: &str) -> (veto: Option<
    Result<CandidateStatus, InspectionError>,
>)
    ensures
        veto is None <==> activity_veto(status, pane_id@, source@) == Ok::<
            Option<CandidateStatusView>,
            InspectionErrorView,
        >(None),
        veto matches Some(Ok(found)) ==> activity_veto(status, pane_id@, source@) == Ok::<
            Option<CandidateStatusView>,
            InspectionErrorView,
        >(Some(found.deep_view())),
        veto matches Some(Err(error)) ==> activity_veto(status, pane_id@, source@) == Err::<
            Option<CandidateStatusView>,
            InspectionErrorView,
        >(error.deep_view()),
{
    match status {
        AgentStatus::Working => Some(
            Ok(CandidateStatus::ActiveAgent { pane_id: pane_id.to_owned() }),
        ),
        AgentStatus::Blocked => Some(
            Ok(CandidateStatus::ActiveAgent { pane_id: pane_id.to_owned() }),
        ),
        AgentStatus::Unknown => Some(
            Err(
                InspectionError::IncompleteActivity(
                    text::concat4(source, " in pane ", pane_id, " has unknown state"),
                ),
            ),
        ),
        AgentStatus::Idle => None,
        AgentStatus::Done => None,
    }
}

/// Whether a pane counts among those of the checkout.
pub open spec fn candidate_pane(
    table: Seq<(Seq<u8>, Seq<u8>)>,
    pane: PaneView,
    candidate: Seq<u8>,
    described: Seq<Seq<char>>,
) -> bool {
    pane_within(table, pane, candidate) || described.contains(pane.workspace_id)
}

/// Whether a pane is the focused one.
pub open spec fn pane_focused(pane: PaneView, focused: Option<Seq<char>>) -> bool {
    pane.focused || focused == Some(pane.id)
}

pub(crate) fn is_focused(pane: &Pane, focused: &Option<String>) -> (result: bool)
    ensures
        result == pane_focused(pane.deep_view(), focused.deep_view()),
{
    pane.focused || match focused {
        None => false,
        Some(id) => text::same_text(id.as_str(), pane.id.as_str()),
    }
}

/// The identifiers of the panes of the checkout, in order; or the first thing in them that
/// stands in the way.
pub open spec fn scan_panes(
    table: Seq<(Seq<u8>, Seq<u8>)>,
    snapshot: SnapshotView,
    candidate: Seq<u8>,
    described: Seq<Seq<char>>,
    i: int,
    ids: Seq<Seq<char>>,
) -> Result<Result<Seq<Seq<char>>, CandidateStatusView>, InspectionErrorView>
    decreases snapshot.panes.len() - i,
{
    if i >= snapshot.panes.len() {
        Ok(Ok(ids))
    } else {
        let pane = snapshot.panes[i];
        if !candidate_pane(table, pane, candidate, described) {
            scan_panes(table, snapshot, candidate, described, i + 1, ids)
        } else if pane_focused(pane, snapshot.focused_pane_id) {
            Ok(Err(CandidateStatusView::FocusedPane { pane_id: pane.id }))
        } else if pane.agent is None {
            scan_panes(table, snapshot, candidate, described, i + 1, ids.push(pane.id))
        } else {
            match activity_veto(pane.status, pane.id, "pane"@) {
                Err(error) => Err(error),
                Ok(Some(veto)) => Ok(Err(veto)),
                Ok(None) => scan_panes(
                    table,
                    snapshot,
                    candidate,
                    described,
                    i + 1,
                    ids.push(pane.id),
                ),
            }
        }
    }
}

/// Whether an agent counts among those of the checkout, whose panes are `panes`.
pub open spec fn candidate_agent(
    table: Seq<(Seq<u8>, Seq<u8>)>,
    agent: AgentView,
    candidate: Seq<u8>,
    described: Seq<Seq<char>>,
    panes: Seq<Seq<char>>,
) -> bool {
    option_within(table, agent.cwd, candidate) || option_within(
        table,
        agent.foreground_cwd,
        candidate,
    ) || panes.contains(agent.id) || described.contains(agent.workspace_id)
}

/// The first thing in the agents of the checkout, from number `i` on, that stands in the way.
pub open spec fn scan_agents(
    table: Seq<(Seq<u8>, Seq<u8>)>,
    agents: Seq<AgentView>,
    candidate: Seq<u8>,
    described: Seq<Seq<char>>,
    panes: Seq<Seq<char>>,
    i: int,
) -> Result<Option<CandidateStatusView>, InspectionErrorView>
    decreases agents.len() - i,
{
    if i >= agents.len() {
        Ok(None)
    } else if !candidate_agent(table, agents[i], candidate, described, panes) {
        scan_agents(table, agents, candidate, described, panes, i + 1)
    } else {
        match activity_veto(agents[i].status, agents[i].id, "agent"@) {
            Ok(None) => scan_agents(table, agents, candidate, described, panes, i + 1),
            decided => decided,
        }
    }
}

/// The workspaces to retire: the described ones, and those from number `i` on whose panes are all
/// in the checkout.
pub open spec fn cleanup_workspaces(
    table: Seq<(Seq<u8>, Seq<u8>)>,
    panes: Seq<PaneView>,
    ids: Seq<Seq<char>>,
    candidate: Seq<u8>,
    i: int,
    found: Seq<Seq<char>>,
) -> Seq<Seq<char>>
    decreases ids.len() - i,
{
    if i >= ids.len() {
        found
    } else if has_candidate_pane(table, panes, ids[i], candidate) && all_panes_within(
        table,
        panes,
        ids[i],
        candidate,
    ) {
        cleanup_workspaces(
            table,
            panes,
            ids,
            candidate,
            i + 1,
            text::insert_text(found, ids[i]),
        )
    } else {
        cleanup_workspaces(table, panes, ids, candidate, i + 1, found)
    }
}

fn cleanup_workspace_ids(
    table: &Vec<(FilePath, FilePath)>,
    panes: &Vec<Pane>,
    candidate: &FilePath,
    described: &Vec<String>,
) -> (workspaces: Vec<String>)
    ensures
        workspaces.deep_view() == cleanup_workspaces(
            table.deep_view(),
            panes.deep_view(),
            pane_workspaces(panes.deep_view()),
            candidate@,
            0,
            described.deep_view(),
        ),
{
    let ids = find_pane_workspaces(panes);
    let ghost all = ids.deep_view();
    let ghost goal = cleanup_workspaces(
        table.deep_view(),
        panes.deep_view(),
        all,
        candidate@,
        0,
        described.deep_view(),
    );
    let mut found = text::clone_texts(described);
    let mut i: usize = 0;
    while i < ids.len()
        invariant
            i <= ids.len(),
            all == ids.deep_view(),
            goal == cleanup_workspaces(
                table.deep_view(),
                panes.deep_view(),
                all,
                candidate@,
                i as int,
                found.deep_view(),
            ),
        decreases ids.len() - i,
    {
        assert(all[i as int] == ids[i as int]@);
        let (some, every) = scan_workspace(table, panes, ids[i].as_str(), candidate);
        if some && every {
            found = text::insert_sorted(found, ids[i].as_str());
        }
        i += 1;
    }
    found
}

/// Whether a snapshot says what it is.
pub open spec fn snapshot_valid(snapshot: SnapshotView) -> bool {
    text::trimmed(snapshot.version).len() > 0 && snapshot.protocol != 0
}

/// The complaint about a snapshot that does not say what it is.
pub open spec fn invalid_snapshot() -> InspectionErrorView {
    InspectionErrorView::MalformedResult("snapshot omitted a valid version or protocol"@)
}

pub(crate) fn is_valid_snapshot(snapshot: &Snapshot) -> (valid: bool)
    ensures
        valid == snapshot_valid(snapshot.deep_view()),
{
    let version = text::trim(snapshot.version.as_str());
    !text::is_blank(version.as_str()) && snapshot.protocol != 0
}

pub(crate) fn new_invalid_snapshot() -> (error: InspectionError)
    ensures
        error.deep_view() == invalid_snapshot(),
{
    InspectionError::MalformedResult("snapshot omitted a valid version or protocol".to_owned())
}

/// What a snapshot has against the removal of a checkout.
pub open spec fn snapshot_status(
    table: Seq<(Seq<u8>, Seq<u8>)>,
    snapshot: SnapshotView,
    candidate: Seq<u8>,
    session: Option<Seq<char>>,
) -> Result<CandidateStatusView, InspectionErrorView> {
    let described = candidate_workspaces(table, snapshot.workspaces, candidate);
    if !snapshot_valid(snapshot) {
        Err(invalid_snapshot())
    } else {
        match candidate_error(table, snapshot, candidate) {
            Some(error) => Err(error),
            None => match scan_panes(table, snapshot, candidate, described, 0, Seq::empty()) {
                Err(error) => Err(error),
                Ok(Err(veto)) => Ok(veto),
                Ok(Ok(panes)) => match scan_agents(
                    table,
                    snapshot.agents,
                    candidate,
                    described,
                    panes,
                    0,
                ) {
                    Err(error) => Err(error),
                    Ok(Some(veto)) => Ok(veto),
                    Ok(None) => Ok(
                        CandidateStatusView::Clear(
                            CoordinationView {
                                session,
                                workspaces: cleanup_workspaces(
                                    table,
                                    snapshot.panes,
                                    pane_workspaces(snapshot.panes),
                                    candidate,
                                    0,
                                    described,
                                ),
                                panes,
                                processes: Seq::empty(),
                            },
                        ),
                    ),
                },
            },
        }
    }
}

/// What a snapshot has against the removal of a checkout.
pub fn evaluate_snapshot(
    table: &Vec<(FilePath, FilePath)>,
    snapshot: &Snapshot,
    candidate: &FilePath,
    session: &Option<String>,
) -> (result: Result<CandidateStatus, InspectionError>)
    ensures
        flow::result_view(result) == snapshot_status(
            table.deep_view(),
            snapshot.deep_view(),
            candidate@,
            session.deep_view(),
        ),
{
    let ghost shown = snapshot.deep_view();
    let ghost goal = snapshot_status(table.deep_view(), shown, candidate@, session.deep_view());
    if !is_valid_snapshot(snapshot) {
        return Err(new_invalid_snapshot());
    }
    let described = find_candidate_workspaces(table, &snapshot.workspaces, candidate);
    match validate_candidate_workspaces(table, snapshot, candidate, &described) {
        Some(error) => return Err(error),
        None => {},
    }
    let mut panes = command::new_texts();
    let mut i: usize = 0;
    while i < snapshot.panes.len()
        invariant
            i <= snapshot.panes.len(),
            shown == snapshot.deep_view(),
            goal == snapshot_status(table.deep_view(), shown, candidate@, session.deep_view()),
            snapshot_valid(shown),
            candidate_error(table.deep_view(), shown, candidate@) is None,
            described.deep_view() == candidate_workspaces(
                table.deep_view(),
                shown.workspaces,
                candidate@,
            ),
            scan_panes(
                table.deep_view(),
                shown,
                candidate@,
                described.deep_view(),
                0,
                Seq::empty(),
            ) == scan_panes(
                table.deep_view(),
                shown,
                candidate@,
                described.deep_view(),
                i as int,
                panes.deep_view(),
            ),
        decreases snapshot.panes.len() - i,
    {
        let pane = &snapshot.panes[i];
        assert(shown.panes[i as int] == pane.deep_view());
        if pane_matches(table, pane, candidate) || text::contains_text(
            &described,
            pane.workspace_id.as_str(),
        ) {
            if is_focused(pane, &snapshot.focused_pane_id) {
                return Ok(CandidateStatus::FocusedPane { pane_id: pane.id.clone() });
            }
            if pane.agent.is_some() {
                match check_activity(pane.status, pane.id.as_str(), "pane") {
                    Some(Ok(veto)) => return Ok(veto),
                    Some(Err(error)) => return Err(error),
                    None => {},
                }
            }
            text::push_text(&mut panes, pane.id.as_str());
        }
        i += 1;
    }
    let mut k: usize = 0;
    while k < snapshot.agents.len()
        invariant
            k <= snapshot.agents.len(),
            shown == snapshot.deep_view(),
            goal == snapshot_status(table.deep_view(), shown, candidate@, session.deep_view()),
            snapshot_valid(shown),
            candidate_error(table.deep_view(), shown, candidate@) is None,
            described.deep_view() == candidate_workspaces(
                table.deep_view(),
                shown.workspaces,
                candidate@,
            ),
            scan_panes(
                table.deep_view(),
                shown,
                candidate@,
                described.deep_view(),
                0,
                Seq::empty(),
            ) == Ok::<Result<Seq<Seq<char>>, CandidateStatusView>, InspectionErrorView>(
                Ok(panes.deep_view()),
            ),
            scan_agents(
                table.deep_view(),
                shown.agents,
                candidate@,
                described.deep_view(),
                panes.deep_view(),
                0,
            ) == scan_agents(
                table.deep_view(),
                shown.agents,
                candidate@,
                described.deep_view(),
                panes.deep_view(),
                k as int,
            ),
        decreases snapshot.agents.len() - k,
    {
        let agent = &snapshot.agents[k];
        assert(shown.agents[k as int] == agent.deep_view());
        if path_option_is_within(table, &agent.cwd, candidate) || path_option_is_within(
            table,
            &agent.foreground_cwd,
            candidate,
        ) || text::contains_text(&panes, agent.id.as_str()) || text::contains_text(
            &described,
            agent.workspace_id.as_str(),
        ) {
            match check_activity(agent.status, agent.id.as_str(), "agent") {
                Some(Ok(veto)) => return Ok(veto),
                Some(Err(error)) => return Err(error),
                None => {},
            }
        }
        k += 1;
    }
    let processes: Vec<u32> = Vec::new();
    assert(processes@ =~= Seq::empty());
    Ok(
        CandidateStatus::Clear(
            Coordination {
                session: text::clone_optional(session),
                workspaces: cleanup_workspace_ids(table, &snapshot.panes, candidate, &described),
                panes,
                processes,
            },
        ),
    )
}

} // verus!
