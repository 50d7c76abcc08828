//! Workspaces whose checkouts are gone.
use crate::command;
use crate::command::{Reply, ReplyView, Request, RequestView};
use crate::filepath;
use crate::filepath::FilePath;
use crate::flow;
use crate::flow::{Flow, Step};
use crate::herdr::evaluation;
use crate::herdr::session;
use crate::herdr::session::{SnapshotFound, SnapshotFoundView};
use crate::herdr::{AgentView, CandidateStatus, CandidateStatusView, Coordination, CoordinationView};
use crate::herdr::{InspectionError, InspectionErrorView, PaneView, Snapshot, SnapshotView};
use crate::herdr::{StaleWorkspace, StaleWorkspaceStatus, StaleWorkspaceStatusView};
use crate::herdr::{StaleWorkspaceView, WorkspaceWorktree, WorkspaceWorktreeView};
use crate::text;
use vstd::prelude::*;
use vstd::utf8::*;

verus! {

/// Where Worktrunk moves checkouts that it removes.
pub open spec fn trash_directory(git_common_directory: Seq<u8>) -> Seq<u8> {
    filepath::joined(git_common_directory, encode_utf8("wt/trash"@))
}

/// Whether a path stands for a former checkout in Worktrunk's trash: something there whose name
/// starts with the checkout's name and a hyphen.
pub open spec fn in_trash(
    table: Seq<(Seq<u8>, Seq<u8>)>,
    path: Seq<u8>,
    checkout: Seq<u8>,
    git_common_directory: Seq<u8>,
) -> bool {
    let resolved = evaluation::resolve(table, path);
    match (filepath::file_name(resolved), filepath::file_name(checkout)) {
        (Some(name), Some(checkout_name)) => {
            &&& valid_utf8(name)
            &&& valid_utf8(checkout_name)
            &&& filepath::path_within(
                resolved,
                evaluation::resolve(table, trash_directory(git_common_directory)),
            )
            &&& checkout_name.push(45u8).is_prefix_of(name)
        },
        _ => false,
    }
}

fn path_is_stale_worktrunk_trash(
    table: &Vec<(FilePath, FilePath)>,
    path: &FilePath,
    checkout: &FilePath,
    git_common_directory: &FilePath,
) -> (result: bool)
    ensures
        result == in_trash(table.deep_view(), path@, checkout@, git_common_directory@),
{
    let resolved = evaluation::resolve_path(table, path);
    let trash = evaluation::resolve_path(table, &git_common_directory.join_text("wt/trash"));
    match (resolved.file_name(), checkout.file_name()) {
        (Some(name), Some(checkout_name)) => {
            let mut start = checkout_name;
            if text::from_utf8(name.as_slice()).is_err() || text::from_utf8(
                start.as_slice(),
            ).is_err() {
                return false;
            }
            start.push(45);
            resolved.is_within(&trash) && text::has_prefix(name.as_slice(), start.as_slice())
        },
        _ => false,
    }
}

/// Whether a place is in the checkout, or in Worktrunk's trash as the checkout.
pub open spec fn place_belongs(
    table: Seq<(Seq<u8>, Seq<u8>)>,
    path: Option<Seq<u8>>,
    checkout: Seq<u8>,
    git_common_directory: Seq<u8>,
) -> bool {
    path matches Some(path) ==> evaluation::resolves_within(table, path, checkout) || in_trash(
        table,
        path,
        checkout,
        git_common_directory,
    )
}

fn is_place_of(
    table: &Vec<(FilePath, FilePath)>,
    path: &Option<FilePath>,
    checkout: &FilePath,
    git_common_directory: &FilePath,
) -> (result: bool)
    ensures
        result == place_belongs(
            table.deep_view(),
            path.deep_view(),
            checkout@,
            git_common_directory@,
        ),
{
    match path {
        None => true,
        Some(path) => evaluation::path_is_within(table, path, checkout) || path_is_stale_worktrunk_trash(
            table,
            path,
            checkout,
            git_common_directory,
        ),
    }
}

/// Whether a pane is known to be nowhere but in a checkout that is gone.
pub open spec fn pane_belongs(
    table: Seq<(Seq<u8>, Seq<u8>)>,
    pane: PaneView,
    checkout: Seq<u8>,
    git_common_directory: Seq<u8>,
) -> bool {
    &&& place_belongs(table, pane.cwd, checkout, git_common_directory)
    &&& place_belongs(table, pane.foreground_cwd, checkout, git_common_directory)
    &&& evaluation::located(pane)
}

/// The identifiers of the panes of a workspace whose checkout is gone; or the first thing in them
/// that stands in the way.
pub open spec fn scan_stale_panes(
    table: Seq<(Seq<u8>, Seq<u8>)>,
    snapshot: SnapshotView,
    id: Seq<char>,
    checkout: Seq<u8>,
    git_common_directory: Seq<u8>,
    i: int,
    ids: Seq<Seq<char>>,
) -> Result<Result<Seq<Seq<char>>, CandidateStatusView>, InspectionErrorView>
    decreases snapshot.panes.len() - i,
{
    if i >= snapshot.panes.len() {
        Ok(Ok(ids))
    } else {
        let pane = snapshot.panes[i];
        if pane.workspace_id != id {
            scan_stale_panes(table, snapshot, id, checkout, git_common_directory, i + 1, ids)
        } else if evaluation::pane_focused(pane, snapshot.focused_pane_id) {
            Ok(Err(CandidateStatusView::FocusedPane { pane_id: pane.id }))
        } else if !pane_belongs(table, pane, checkout, git_common_directory) {
            Err(
                InspectionErrorView::IncompleteActivity(
                    "stale workspace "@ + id + " contains unrelated pane "@ + pane.id,
                ),
            )
        } else if pane.agent is None {
            scan_stale_panes(
                table,
                snapshot,
                id,
                checkout,
                git_common_directory,
                i + 1,
                ids.push(pane.id),
            )
        } else {
            match evaluation::activity_veto(pane.status, pane.id, "pane"@) {
                Err(error) => Err(error),
                Ok(Some(veto)) => Ok(Err(veto)),
                Ok(None) => scan_stale_panes(
                    table,
                    snapshot,
                    id,
                    checkout,
                    git_common_directory,
                    i + 1,
                    ids.push(pane.id),
                ),
            }
        }
    }
}

/// The first thing in the agents of a workspace, from number `i` on, that stands in the way.
pub open spec fn scan_stale_agents(agents: Seq<AgentView>, id: Seq<char>, i: int) -> Result<
    Option<CandidateStatusView>,
    InspectionErrorView,
>
    decreases agents.len() - i,
{
    if i >= agents.len() {
        Ok(None)
    } else if agents[i].workspace_id != id {
        scan_stale_agents(agents, id, i + 1)
    } else {
        match evaluation::activity_veto(agents[i].status, agents[i].id, "agent"@) {
            Ok(None) => scan_stale_agents(agents, id, i + 1),
            decided => decided,
        }
    }
}

/// What a session has against the retirement of a workspace whose checkout is gone.
pub open spec fn stale_status(
    table: Seq<(Seq<u8>, Seq<u8>)>,
    snapshot: SnapshotView,
    id: Seq<char>,
    checkout: Seq<u8>,
    git_common_directory: Seq<u8>,
    session: Option<Seq<char>>,
) -> Result<CandidateStatusView, InspectionErrorView> {
    if !evaluation::pane_workspaces(snapshot.panes).contains(id) {
        Err(
            InspectionErrorView::IncompleteActivity(
                "stale workspace "@ + id + " has no pane activity data"@,
            ),
        )
    } else {
        match scan_stale_panes(
            table,
            snapshot,
            id,
            checkout,
            git_common_directory,
            0,
            Seq::empty(),
        ) {
            Err(error) => Err(error),
            Ok(Err(veto)) => Ok(veto),
            Ok(Ok(panes)) => match scan_stale_agents(snapshot.agents, id, 0) {
                Err(error) => Err(error),
                Ok(Some(veto)) => Ok(veto),
                Ok(None) => Ok(
                    CandidateStatusView::Clear(
                        CoordinationView {
                            session,
                            workspaces: seq![id],
                            panes,
                            processes: Seq::empty(),
                        },
                    ),
                ),
            },
        }
    }
}

/// What a session has against the retirement of a workspace whose checkout is gone.
pub fn evaluate_stale_workspace(
    table: &Vec<(FilePath, FilePath)>,
    snapshot: &Snapshot,
    id: &str,
    checkout: &FilePath,
    git_common_directory: &FilePath,
    session: &Option<String>,
) -> (result: Result<CandidateStatus, InspectionError>)
    ensures
        flow::result_view(result) == stale_status(
            table.deep_view(),
            snapshot.deep_view(),
            id@,
            checkout@,
            git_common_directory@,
            session.deep_view(),
        ),
{
    let ghost shown = snapshot.deep_view();
    let ghost goal = stale_status(
        table.deep_view(),
        shown,
        id@,
        checkout@,
        git_common_directory@,
        session.deep_view(),
    );
    let ids = evaluation::find_pane_workspaces(&snapshot.panes);
    if !text::contains_text(&ids, id) {
        return Err(
            InspectionError::IncompleteActivity(
                text::concat3("stale workspace ", id, " has no pane activity data"),
            ),
        );
    }
    let mut panes = command::new_texts();
    let mut i: usize = 0;
    while i < snapshot.panes.len()
        invariant
            i <= snapshot.panes.len(),
            shown == snapshot.deep_view(),
            goal == stale_status(
                table.deep_view(),
                shown,
                id@,
                checkout@,
                git_common_directory@,
                session.deep_view(),
            ),
            evaluation::pane_workspaces(shown.panes).contains(id@),
            scan_stale_panes(
                table.deep_view(),
                shown,
                id@,
                checkout@,
                git_common_directory@,
                0,
                Seq::empty(),
            ) == scan_stale_panes(
                table.deep_view(),
                shown,
                id@,
                checkout@,
                git_common_directory@,
                i as int,
                panes.deep_view(),
            ),
        decreases snapshot.panes.len() - i,
    {
        let pane = &snapshot.panes[i];
        assert(shown.panes[i as int] == pane.deep_view());
        if text::same_text(pane.workspace_id.as_str(), id) {
            if evaluation::is_focused(pane, &snapshot.focused_pane_id) {
                return Ok(CandidateStatus::FocusedPane { pane_id: pane.id.clone() });
            }
            let belongs = is_place_of(table, &pane.cwd, checkout, git_common_directory)
                && is_place_of(table, &pane.foreground_cwd, checkout, git_common_directory) && (
            pane.cwd.is_some() || pane.foreground_cwd.is_some());
            if !belongs {
                return Err(
                    InspectionError::IncompleteActivity(
                        text::concat4(
                            "stale workspace ",
                            id,
                            " contains unrelated pane ",
                            pane.id.as_str(),
                        ),
                    ),
                );
            }
            if pane.agent.is_some() {
                match evaluation::check_activity(pane.status, pane.id.as_str(), "pane") {
                    Some(Ok(veto)) => return Ok(veto),
                    Some(Err(error)) => return Err(error),
                    None => {},
                }
            }
            text::push_text(&mut panes, pane.id.as_str());
        }
        i += 1;
    }
    let mut k: usize = 0;
    while k < snapshot.agents.len()
        invariant
            k <= snapshot.agents.len(),
            shown == snapshot.deep_view(),
            goal == stale_status(
                table.deep_view(),
                shown,
                id@,
                checkout@,
                git_common_directory@,
                session.deep_view(),
            ),
            evaluation::pane_workspaces(shown.panes).contains(id@),
            scan_stale_panes(
                table.deep_view(),
                shown,
                id@,
                checkout@,
                git_common_directory@,
                0,
                Seq::empty(),
            ) == Ok::<Result<Seq<Seq<char>>, CandidateStatusView>, InspectionErrorView>(
                Ok(panes.deep_view()),
            ),
            scan_stale_agents(shown.agents, id@, 0) == scan_stale_agents(
                shown.agents,
                id@,
                k as int,
            ),
        decreases snapshot.agents.len() - k,
    {
        let agent = &snapshot.agents[k];
        assert(shown.agents[k as int] == agent.deep_view());
        if text::same_text(agent.workspace_id.as_str(), id) {
            match evaluation::check_activity(agent.status, agent.id.as_str(), "agent") {
                Some(Ok(veto)) => return Ok(veto),
                Some(Err(error)) => return Err(error),
                None => {},
            }
        }
        k += 1;
    }
    let mut workspaces = command::new_texts();
    text::push_text(&mut workspaces, id);
    assert(workspaces.deep_view() =~= seq![id@]);
    let processes: Vec<u32> = Vec::new();
    assert(processes@ =~= Seq::empty());
    Ok(
        CandidateStatus::Clear(
            Coordination { session: text::clone_optional(session), workspaces, panes, processes },
        ),
    )
}

/// Whether a workspace is for a linked checkout of the repository that Git no longer lists.
pub open spec fn unlisted(
    table: Seq<(Seq<u8>, Seq<u8>)>,
    worktree: WorkspaceWorktreeView,
    git_common_directory: Seq<u8>,
    inventory: Seq<Seq<u8>>,
) -> bool {
    &&& worktree.is_linked_worktree == Some(true)
    &&& worktree.repo_key matches Some(key) && filepath::same_path(
        evaluation::resolve(table, key),
        evaluation::resolve(table, git_common_directory),
    )
    &&& !filepath::holds_path(inventory, worktree.checkout_path)
}

fn is_unlisted(
    table: &Vec<(FilePath, FilePath)>,
    worktree: &WorkspaceWorktree,
    git_common_directory: &FilePath,
    inventory: &Vec<FilePath>,
) -> (result: bool)
    ensures
        result == unlisted(
            table.deep_view(),
            worktree.deep_view(),
            git_common_directory@,
            inventory.deep_view(),
        ),
{
    let linked = match worktree.is_linked_worktree {
        Some(linked) => linked,
        None => false,
    };
    let same = match &worktree.repo_key {
        None => false,
        Some(key) => evaluation::resolve_path(table, key).same_as(
            &evaluation::resolve_path(table, git_common_directory),
        ),
    };
    linked && same && !filepath::contains_path(inventory, &worktree.checkout_path)
}

/// Whether a reply says that something exists; one that does not say so counts as if it did.
pub open spec fn said_to_exist(reply: ReplyView) -> bool {
    match reply {
        ReplyView::Exists(exists) => exists,
        _ => true,
    }
}

/// The workspaces from number `i` on whose checkouts are gone, behind those that were found
/// before.
pub open spec fn stale_flow(
    table: Seq<(Seq<u8>, Seq<u8>)>,
    snapshot: SnapshotView,
    session: Option<Seq<char>>,
    git_common_directory: Seq<u8>,
    inventory: Seq<Seq<u8>>,
    i: int,
    found: Seq<StaleWorkspaceView>,
    timeout: u64,
    replies: Seq<ReplyView>,
    at: int,
) -> Flow<Result<StaleWorkspaceStatusView, InspectionErrorView>>
    decreases snapshot.workspaces.len() - i,
{
    if i >= snapshot.workspaces.len() {
        Flow::Done(Ok(StaleWorkspaceStatusView::Inspected(found)), at)
    } else {
        match snapshot.workspaces[i].worktree {
            Some(worktree) if unlisted(table, worktree, git_common_directory, inventory) => {
                if at >= replies.len() {
                    Flow::Ask(RequestView::Exists(worktree.checkout_path))
                } else if said_to_exist(replies[at]) {
                    stale_flow(
                        table,
                        snapshot,
                        session,
                        git_common_directory,
                        inventory,
                        i + 1,
                        found,
                        timeout,
                        replies,
                        at + 1,
                    )
                } else {
                    match stale_status(
                        table,
                        snapshot,
                        snapshot.workspaces[i].workspace_id,
                        worktree.checkout_path,
                        git_common_directory,
                        session,
                    ) {
                        Err(error) => Flow::Done(Err(error), at + 1),
                        Ok(status) => match session::attribute_flow(
                            status,
                            timeout,
                            replies,
                            at + 1,
                        ) {
                            Flow::Ask(request) => Flow::Ask(request),
                            Flow::Done(Err(error), next) => Flow::Done(Err(error), next),
                            Flow::Done(Ok(status), next) => stale_flow(
                                table,
                                snapshot,
                                session,
                                git_common_directory,
                                inventory,
                                i + 1,
                                found.push(
                                    StaleWorkspaceView {
                                        checkout_path: worktree.checkout_path,
                                        status,
                                    },
                                ),
                                timeout,
                                replies,
                                next,
                            ),
                        },
                    }
                }
            },
            _ => stale_flow(
                table,
                snapshot,
                session,
                git_common_directory,
                inventory,
                i + 1,
                found,
                timeout,
                replies,
                at,
            ),
        }
    }
}

fn find_stale(
    table: &Vec<(FilePath, FilePath)>,
    snapshot: &Snapshot,
    session: &Option<String>,
    git_common_directory: &FilePath,
    inventory: &Vec<FilePath>,
    timeout: u64,
    replies: &Vec<Reply>,
    at: usize,
) -> (step: Step<Result<StaleWorkspaceStatus, InspectionError>>)
    ensures
        flow::step_view(step) == stale_flow(
            table.deep_view(),
            snapshot.deep_view(),
            session.deep_view(),
            git_common_directory@,
            inventory.deep_view(),
            0,
            Seq::empty(),
            timeout,
            replies.deep_view(),
            at as int,
        ),
{
    let ghost shown = snapshot.deep_view();
    let ghost goal = stale_flow(
        table.deep_view(),
        shown,
        session.deep_view(),
        git_common_directory@,
        inventory.deep_view(),
        0,
        Seq::empty(),
        timeout,
        replies.deep_view(),
        at as int,
    );
    let mut found: Vec<StaleWorkspace> = Vec::new();
    let mut position: usize = at;
    let mut i: usize = 0;
    assert(found.deep_view() =~= Seq::empty());
    while i < snapshot.workspaces.len()
        invariant
            i <= snapshot.workspaces.len(),
            shown == snapshot.deep_view(),
            goal == stale_flow(
                table.deep_view(),
                shown,
                session.deep_view(),
                git_common_directory@,
                inventory.deep_view(),
                0,
                Seq::empty(),
                timeout,
                replies.deep_view(),
                at as int,
            ),
            goal == stale_flow(
                table.deep_view(),
                shown,
                session.deep_view(),
                git_common_directory@,
                inventory.deep_view(),
                i as int,
                found.deep_view(),
                timeout,
                replies.deep_view(),
                position as int,
            ),
        decreases snapshot.workspaces.len() - i,
    {
        let workspace = &snapshot.workspaces[i];
        assert(shown.workspaces[i as int] == workspace.deep_view());
        if let Some(worktree) = &workspace.worktree {
            if is_unlisted(table, worktree, git_common_directory, inventory) {
                if position >= replies.len() {
                    return Step::Ask(Request::Exists(worktree.checkout_path.clone()));
                }
                assert(replies.deep_view()[position as int]
                    == replies[position as int].deep_view());
                let exists = match &replies[position] {
                    Reply::Exists(exists) => *exists,
                    _ => true,
                };
                position += 1;
                if !exists {
                    let status = match evaluate_stale_workspace(
                        table,
                        snapshot,
                        workspace.workspace_id.as_str(),
                        &worktree.checkout_path,
                        git_common_directory,
                        session,
                    ) {
                        Err(error) => return Step::Done(Err(error), position),
                        Ok(status) => status,
                    };
                    match session::attribute_processes(status, timeout, replies, position) {
                        Step::Ask(request) => return Step::Ask(request),
                        Step::Done(Err(error), next) => return Step::Done(Err(error), next),
                        Step::Done(Ok(status), next) => {
                            let ghost before = found.deep_view();
                            let stale = StaleWorkspace {
                                checkout_path: worktree.checkout_path.clone(),
                                status,
                            };
                            let ghost added = stale.deep_view();
                            found.push(stale);
                            assert(found.deep_view() =~= before.push(added));
                            position = next;
                        },
                    }
                }
            }
        }
        i += 1;
    }
    Step::Done(Ok(StaleWorkspaceStatus::Inspected(found)), position)
}

/// The workspaces of a repository whose checkouts are gone.
pub open spec fn inspect_stale_flow(
    git_common_directory: Seq<u8>,
    inventory: Seq<Seq<u8>>,
    timeout: u64,
    replies: Seq<ReplyView>,
    at: int,
) -> Flow<Result<StaleWorkspaceStatusView, InspectionErrorView>> {
    match session::snapshot_flow(timeout, replies, at) {
        Flow::Ask(request) => Flow::Ask(request),
        Flow::Done(SnapshotFoundView::Unavailable, next) => Flow::Done(
            Ok(StaleWorkspaceStatusView::Unavailable),
            next,
        ),
        Flow::Done(SnapshotFoundView::Malformed(error), next) => Flow::Done(Err(error), next),
        Flow::Done(SnapshotFoundView::Found(session, snapshot), next) => if !evaluation::snapshot_valid(
            snapshot,
        ) {
            Flow::Done(Err(evaluation::invalid_snapshot()), next)
        } else if next >= replies.len() {
            Flow::Ask(
                RequestView::Resolve(
                    session::mentioned_paths(
                        seq![git_common_directory, trash_directory(git_common_directory)],
                        snapshot,
                    ),
                ),
            )
        } else {
            stale_flow(
                session::resolved_table(replies[next]),
                snapshot,
                session,
                git_common_directory,
                inventory,
                0,
                Seq::empty(),
                timeout,
                replies,
                next + 1,
            )
        },
    }
}

/// Finds safe-to-retire Herdr workspaces whose linked Git checkout is already gone.
///
/// It is an error when available Herdr state is malformed, incomplete, or mixes a stale checkout
/// with unrelated pane activity.
pub fn inspect_stale_workspaces(
    git_common_directory: &FilePath,
    inventory_paths: &Vec<FilePath>,
    timeout: u64,
    replies: &Vec<Reply>,
    at: usize,
) -> (step: Step<Result<StaleWorkspaceStatus, InspectionError>>)
    ensures
        flow::step_view(step) == inspect_stale_flow(
            git_common_directory@,
            inventory_paths.deep_view(),
            timeout,
            replies.deep_view(),
            at as int,
        ),
{
    match session::find_snapshot(timeout, replies, at) {
        Step::Ask(request) => Step::Ask(request),
        Step::Done(SnapshotFound::Unavailable, next) => Step::Done(
            Ok(StaleWorkspaceStatus::Unavailable),
            next,
        ),
        Step::Done(SnapshotFound::Malformed(error), next) => Step::Done(Err(error), next),
        Step::Done(SnapshotFound::Found(session, snapshot), next) => {
            if !evaluation::is_valid_snapshot(snapshot) {
                return Step::Done(Err(evaluation::new_invalid_snapshot()), next);
            }
            if next >= replies.len() {
                let mut first: Vec<FilePath> = Vec::new();
                assert(first.deep_view() =~= Seq::empty());
                filepath::push_path(&mut first, git_common_directory.clone());
                filepath::push_path(&mut first, git_common_directory.join_text("wt/trash"));
                assert(first.deep_view() =~= seq![
                    git_common_directory@,
                    trash_directory(git_common_directory@),
                ]);
                return Step::Ask(Request::Resolve(session::collect_paths(first, snapshot)));
            }
            match &replies[next] {
                Reply::Resolved(table) => find_stale(
                    table,
                    snapshot,
                    &session,
                    git_common_directory,
                    inventory_paths,
                    timeout,
                    replies,
                    next + 1,
                ),
                _ => {
                    let table: Vec<(FilePath, FilePath)> = Vec::new();
                    assert(table.deep_view() =~= Seq::empty());
                    find_stale(
                        &table,
                        snapshot,
                        &session,
                        git_common_directory,
                        inventory_paths,
                        timeout,
                        replies,
                        next + 1,
                    )
                },
            }
        },
    }
}

} // verus!
