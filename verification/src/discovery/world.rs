//! Searches of one and the same file system: what they find does not depend on the order of their
//! roots, and a deeper one finds no less.
use crate::command;
use crate::command::{PathFailureView, ReplyView, RequestView};
use crate::discovery;
use crate::discovery::laws;
use crate::discovery::{DiscovererView, PendingDirectoryView, RepositoryView, VisitView, WalkView};
use crate::filepath;
use crate::flow::Flow;
use vstd::prelude::*;

verus! {

/// The canonical form of a path, in a world that answers every request.
pub open spec fn canonical(world: spec_fn(RequestView) -> ReplyView, path: Seq<u8>) -> Result<
    Seq<u8>,
    PathFailureView,
> {
    command::canonical_path(world(RequestView::Canonicalize(path)))
}

/// Whether canonical paths are written in one way only: two with the same components are the same
/// bytes.
pub open spec fn normal(world: spec_fn(RequestView) -> ReplyView) -> bool {
    forall|left: Seq<u8>, right: Seq<u8>|
        (#[trigger] canonical(world, left)) is Ok && (#[trigger] canonical(world, right)) is Ok
            && filepath::same_path(canonical(world, left)->Ok_0, canonical(world, right)->Ok_0)
            ==> canonical(world, left)->Ok_0 == canonical(world, right)->Ok_0
}

/// A search after `n` of its requests, if it has as many, were answered by the world.
pub open spec fn searched(
    world: spec_fn(RequestView) -> ReplyView,
    search: DiscovererView,
    n: nat,
) -> DiscovererView
    decreases n,
{
    if n == 0 {
        search
    } else {
        let before = searched(world, search, (n - 1) as nat);
        match discovery::search_request(before) {
            None => before,
            Some(request) => discovery::search_advance(before, world(request)),
        }
    }
}

/// What comes of the visit that a walk is at, in a world, with the given replies and at most `more`
/// further ones.
pub open spec fn driven(
    world: spec_fn(RequestView) -> ReplyView,
    walk: WalkView,
    scan_depth: u32,
    replies: Seq<ReplyView>,
    more: nat,
) -> Option<VisitView>
    decreases more,
{
    let current = walk.pending[walk.next as int];
    match discovery::visit_flow(
        walk.root,
        current.path,
        current.depth,
        scan_depth,
        walk.visited,
        replies,
        0,
    ) {
        Flow::Done(visit, _) => Some(visit),
        Flow::Ask(request) => if more == 0 {
            None
        } else {
            driven(world, walk, scan_depth, replies.push(world(request)), (more - 1) as nat)
        },
    }
}

/// What comes of the visit that a walk is at, in a world. A visit makes five requests at most.
pub open spec fn visit_in(
    world: spec_fn(RequestView) -> ReplyView,
    walk: WalkView,
    scan_depth: u32,
) -> VisitView {
    driven(world, walk, scan_depth, Seq::empty(), 5)->0
}

/// The walk below a root, in a world, after `n` visits, if it has as many.
pub open spec fn walk_at(
    world: spec_fn(RequestView) -> ReplyView,
    root: Seq<u8>,
    scan_depth: u32,
    n: nat,
) -> WalkView
    decreases n,
{
    if n == 0 {
        WalkView {
            root,
            pending: seq![PendingDirectoryView { path: root, depth: 0 }],
            next: 0,
            visited: Seq::empty(),
        }
    } else {
        let before = walk_at(world, root, scan_depth, (n - 1) as nat);
        if before.next < before.pending.len() {
            discovery::step_walk(before, visit_in(world, before, scan_depth))
        } else {
            before
        }
    }
}

/// The repository that the visit number `n` of the walk below a root finds, in a world.
pub open spec fn found_at(
    world: spec_fn(RequestView) -> ReplyView,
    root: Seq<u8>,
    scan_depth: u32,
    n: nat,
) -> Option<RepositoryView> {
    let walk = walk_at(world, root, scan_depth, n);
    if walk.next < walk.pending.len() {
        visit_in(world, walk, scan_depth).repository
    } else {
        None
    }
}

/// Whether the walk below one of the roots finds a repository, in a world.
pub open spec fn found_below(
    world: spec_fn(RequestView) -> ReplyView,
    roots: Seq<Seq<u8>>,
    scan_depth: u32,
    repository: RepositoryView,
) -> bool {
    exists|root: Seq<u8>, n: nat|
        #![trigger roots.contains(root), found_at(world, canonical(world, root)->Ok_0, scan_depth, n)]
        roots.contains(root) && canonical(world, root) is Ok && found_at(
            world,
            canonical(world, root)->Ok_0,
            scan_depth,
            n,
        ) == Some(repository)
}

proof fn lemma_requests(walk: WalkView, scan_depth: u32, replies: Seq<ReplyView>)
    ensures
        ({
            let current = walk.pending[walk.next as int];
            discovery::visit_flow(
                walk.root,
                current.path,
                current.depth,
                scan_depth,
                walk.visited,
                replies,
                0,
            ) is Ask ==> replies.len() < 5
        }),
{
}

pub(crate) proof fn lemma_driven(
    world: spec_fn(RequestView) -> ReplyView,
    walk: WalkView,
    scan_depth: u32,
    replies: Seq<ReplyView>,
    more: nat,
)
    requires
        replies.len() + more >= 5,
    ensures
        driven(world, walk, scan_depth, replies, more) is Some,
    decreases more,
{
    lemma_requests(walk, scan_depth, replies);
    let current = walk.pending[walk.next as int];
    if let Flow::Ask(request) = discovery::visit_flow(
        walk.root,
        current.path,
        current.depth,
        scan_depth,
        walk.visited,
        replies,
        0,
    ) {
        lemma_driven(
            world,
            walk,
            scan_depth,
            replies.push(world(request)),
            (more - 1) as nat,
        );
    }
}

/// Whether a path is the canonical form of one.
pub open spec fn is_canonical(world: spec_fn(RequestView) -> ReplyView, path: Seq<u8>) -> bool {
    exists|other: Seq<u8>|
        (#[trigger] canonical(world, other)) is Ok && canonical(world, other)->Ok_0 == path
}

/// The visit that a walk is at, with the given replies.
spec fn visit_step(walk: WalkView, scan_depth: u32, replies: Seq<ReplyView>) -> Flow<VisitView> {
    let current = walk.pending[walk.next as int];
    discovery::visit_flow(
        walk.root,
        current.path,
        current.depth,
        scan_depth,
        walk.visited,
        replies,
        0,
    )
}

/// Whether replies are those that a world gives to a visit.
spec fn faithful(
    world: spec_fn(RequestView) -> ReplyView,
    walk: WalkView,
    scan_depth: u32,
    replies: Seq<ReplyView>,
) -> bool {
    forall|j: int|
        0 <= j < replies.len() ==> ((#[trigger] visit_step(walk, scan_depth, replies.take(j)))
            matches Flow::Ask(request) && replies[j] == world(request))
}

proof fn lemma_faithful_push(
    world: spec_fn(RequestView) -> ReplyView,
    walk: WalkView,
    scan_depth: u32,
    replies: Seq<ReplyView>,
    request: RequestView,
)
    requires
        faithful(world, walk, scan_depth, replies),
        visit_step(walk, scan_depth, replies) == Flow::<VisitView>::Ask(request),
    ensures
        faithful(world, walk, scan_depth, replies.push(world(request))),
{
    let longer = replies.push(world(request));
    assert forall|j: int| 0 <= j < longer.len() implies ((#[trigger] visit_step(
        walk,
        scan_depth,
        longer.take(j),
    )) matches Flow::Ask(asked) && longer[j] == world(asked)) by {
        if j < replies.len() {
            assert(longer.take(j) =~= replies.take(j));
            assert(visit_step(walk, scan_depth, replies.take(j)) is Ask);
        } else {
            assert(longer.take(j) =~= replies);
        }
    }
}

proof fn lemma_visit_is_canonical(
    world: spec_fn(RequestView) -> ReplyView,
    walk: WalkView,
    scan_depth: u32,
    replies: Seq<ReplyView>,
)
    requires
        faithful(world, walk, scan_depth, replies),
    ensures
        visit_step(walk, scan_depth, replies) matches Flow::Done(visit, _) ==> (
        visit.repository matches Some(found) ==> is_canonical(world, found.path) && is_canonical(
            world,
            found.git_common_directory,
        )),
{
    if let Flow::Done(visit, _) = visit_step(walk, scan_depth, replies) {
        if let Some(found) = visit.repository {
            let current = walk.pending[walk.next as int];
            assert(visit_step(walk, scan_depth, replies.take(0)) is Ask);
            assert(replies[0] == world(RequestView::Canonicalize(current.path)));
            assert(canonical(world, current.path) is Ok);
            assert(found.path == canonical(world, current.path)->Ok_0);
            assert(replies.len() >= 5);
            let four = replies.take(4);
            assert(four[0] == replies[0] && four[1] == replies[1] && four[2] == replies[2]
                && four[3] == replies[3]);
            assert(visit_step(walk, scan_depth, four) is Ask);
            let printed = discovery::printed_directory(command::command_result(replies[3]))->Ok_0;
            assert(visit_step(walk, scan_depth, four) == Flow::<VisitView>::Ask(
                RequestView::Canonicalize(printed),
            ));
            assert(canonical(world, printed) is Ok);
            assert(found.git_common_directory == canonical(world, printed)->Ok_0);
        }
    }
}

proof fn lemma_driven_is_canonical(
    world: spec_fn(RequestView) -> ReplyView,
    walk: WalkView,
    scan_depth: u32,
    replies: Seq<ReplyView>,
    more: nat,
)
    requires
        faithful(world, walk, scan_depth, replies),
    ensures
        driven(world, walk, scan_depth, replies, more) matches Some(visit) ==> (
        visit.repository matches Some(found) ==> is_canonical(world, found.path) && is_canonical(
            world,
            found.git_common_directory,
        )),
    decreases more,
{
    lemma_visit_is_canonical(world, walk, scan_depth, replies);
    if let Flow::Ask(request) = visit_step(walk, scan_depth, replies) {
        if more > 0 {
            lemma_faithful_push(world, walk, scan_depth, replies, request);
            lemma_driven_is_canonical(
                world,
                walk,
                scan_depth,
                replies.push(world(request)),
                (more - 1) as nat,
            );
        }
    }
}

proof fn lemma_found_is_canonical(
    world: spec_fn(RequestView) -> ReplyView,
    root: Seq<u8>,
    scan_depth: u32,
    n: nat,
)
    ensures
        found_at(world, root, scan_depth, n) matches Some(found) ==> is_canonical(world, found.path)
            && is_canonical(world, found.git_common_directory),
{
    let walk = walk_at(world, root, scan_depth, n);
    lemma_driven(world, walk, scan_depth, Seq::empty(), 5);
    lemma_driven_is_canonical(world, walk, scan_depth, Seq::empty(), 5);
}

/// Whether repositories are what is kept of all that is found: they are in order, each of them was
/// found, and each that was found is covered.
#[verifier::opaque]
spec fn gathers(
    repositories: Seq<RepositoryView>,
    found: spec_fn(RepositoryView) -> bool,
) -> bool {
    &&& laws::in_common_order(repositories)
    &&& forall|k: int| 0 <= k < repositories.len() ==> found(#[trigger] repositories[k])
    &&& forall|one: RepositoryView| #[trigger]
        found(one) ==> laws::covers(repositories, one.git_common_directory, one.path)
}

/// Whether the paths of all that is found are written in one way only.
spec fn found_normal(found: spec_fn(RepositoryView) -> bool) -> bool {
    forall|left: RepositoryView, right: RepositoryView|
        #![trigger found(left), found(right)]
        found(left) && found(right) ==> {
            &&& filepath::same_path(left.git_common_directory, right.git_common_directory)
                ==> left.git_common_directory == right.git_common_directory
            &&& filepath::same_path(left.path, right.path) ==> left.path == right.path
        }
}

proof fn lemma_gathers_keep(
    repositories: Seq<RepositoryView>,
    found: spec_fn(RepositoryView) -> bool,
    one: RepositoryView,
    more: spec_fn(RepositoryView) -> bool,
)
    requires
        gathers(repositories, found),
        found_normal(more),
        forall|other: RepositoryView| #[trigger] more(other) <==> found(other) || other == one,
    ensures
        gathers(discovery::keep_repository(repositories, one), more),
{
    reveal(gathers);
    let kept = discovery::keep_repository(repositories, one);
    laws::lemma_keep_order(repositories, one);
    laws::lemma_keep_sources(repositories, one);
    assert(more(one));
    assert forall|k: int| 0 <= k < kept.len() implies more(#[trigger] kept[k]) by {
        let entry = kept[k];
        assert(laws::comes_from(repositories, one, entry));
        if repositories.contains(entry) {
            let j = choose|j: int| 0 <= j < repositories.len() && repositories[j] == entry;
            assert(found(repositories[j]));
        } else if entry != one {
            let j = choose|j: int|
                0 <= j < repositories.len() && (#[trigger] repositories[j]).git_common_directory
                    == entry.git_common_directory;
            assert(found(repositories[j]));
            assert(more(repositories[j]));
            assert(entry == one);
        }
    }
    assert forall|other: RepositoryView| #[trigger] more(other) implies laws::covers(
        kept,
        other.git_common_directory,
        other.path,
    ) by {
        if other != one {
            assert(found(other));
        }
        laws::lemma_keep_covers(repositories, one, other.git_common_directory, other.path);
    }
}

proof fn lemma_gathered_is_found(
    repositories: Seq<RepositoryView>,
    found: spec_fn(RepositoryView) -> bool,
    k: int,
)
    requires
        gathers(repositories, found),
        0 <= k < repositories.len(),
    ensures
        found(repositories[k]),
        laws::in_common_order(repositories),
{
    reveal(gathers);
}

proof fn lemma_found_is_gathered(
    repositories: Seq<RepositoryView>,
    found: spec_fn(RepositoryView) -> bool,
    one: RepositoryView,
)
    requires
        gathers(repositories, found),
        found(one),
    ensures
        laws::covers(repositories, one.git_common_directory, one.path),
{
    reveal(gathers);
}

proof fn lemma_one_place(repositories: Seq<RepositoryView>, i: int, k: int)
    requires
        laws::in_common_order(repositories),
        0 <= i < repositories.len(),
        0 <= k < repositories.len(),
        filepath::same_path(
            repositories[i].git_common_directory,
            repositories[k].git_common_directory,
        ),
    ensures
        i == k,
{
    filepath::lemma_path_total(
        repositories[i].git_common_directory,
        repositories[k].git_common_directory,
    );
    filepath::lemma_path_total(
        repositories[k].git_common_directory,
        repositories[i].git_common_directory,
    );
}

proof fn lemma_covering(repositories: Seq<RepositoryView>, common: Seq<u8>, path: Seq<u8>) -> (k: int)
    requires
        laws::covers(repositories, common, path),
    ensures
        0 <= k < repositories.len(),
        filepath::same_path(repositories[k].git_common_directory, common),
        !filepath::path_before(path, repositories[k].path),
{
    choose|k: int|
        0 <= k < repositories.len() && filepath::same_path(
            (#[trigger] repositories[k]).git_common_directory,
            common,
        ) && !filepath::path_before(path, repositories[k].path)
}

proof fn lemma_gathered_entry(
    left: Seq<RepositoryView>,
    right: Seq<RepositoryView>,
    found: spec_fn(RepositoryView) -> bool,
    k: int,
)
    requires
        gathers(left, found),
        gathers(right, found),
        found_normal(found),
        0 <= k < left.len(),
    ensures
        right.contains(left[k]),
{
    let one = left[k];
    lemma_gathered_is_found(left, found, k);
    lemma_found_is_gathered(right, found, one);
    let j = lemma_covering(right, one.git_common_directory, one.path);
    let other = right[j];
    lemma_gathered_is_found(right, found, j);
    lemma_found_is_gathered(left, found, other);
    let i = lemma_covering(left, other.git_common_directory, other.path);
    assert(filepath::same_path(left[i].git_common_directory, left[k].git_common_directory));
    lemma_one_place(left, i, k);
    filepath::lemma_path_total(one.path, other.path);
    assert(filepath::same_path(one.path, other.path));
    assert(one.path == other.path);
    assert(one.git_common_directory == other.git_common_directory);
    assert(right[j] == one);
}

proof fn lemma_gathered_length(left: Seq<RepositoryView>, right: Seq<RepositoryView>)
    requires
        laws::in_common_order(left),
        laws::in_common_order(right),
        forall|k: int| 0 <= k < left.len() ==> right.contains(#[trigger] left[k]),
        forall|k: int| 0 <= k < right.len() ==> left.contains(#[trigger] right[k]),
    ensures
        left == right,
    decreases left.len(),
{
    if left.len() == 0 {
        if right.len() > 0 {
            assert(left.contains(right[0]));
        }
        assert(left =~= right);
    } else {
        assert(right.contains(left[left.len() - 1]));
        let n = left.len() - 1;
        let m = right.len() - 1;
        let i = choose|i: int| 0 <= i < right.len() && right[i] == left[n];
        assert(left.contains(right[m]));
        let j = choose|j: int| 0 <= j < left.len() && left[j] == right[m];
        if i < m {
            assert(filepath::path_before(
                right[i].git_common_directory,
                right[m].git_common_directory,
            ));
            filepath::lemma_path_total(
                left[n].git_common_directory,
                left[j].git_common_directory,
            );
            if j < n {
                assert(filepath::path_before(
                    left[j].git_common_directory,
                    left[n].git_common_directory,
                ));
            }
        }
        assert(right[m] == left[n]);
        laws::lemma_shorter_order(left);
        laws::lemma_shorter_order(right);
        let shorter = left.drop_last();
        let other = right.drop_last();
        assert forall|k: int| 0 <= k < shorter.len() implies other.contains(
            #[trigger] shorter[k],
        ) by {
            assert(right.contains(left[k]));
            let p = choose|p: int| 0 <= p < right.len() && right[p] == left[k];
            if p == m {
                assert(filepath::path_before(
                    left[k].git_common_directory,
                    left[n].git_common_directory,
                ));
                filepath::lemma_path_total(
                    left[k].git_common_directory,
                    left[n].git_common_directory,
                );
            }
            assert(other[p] == shorter[k]);
        }
        assert forall|k: int| 0 <= k < other.len() implies shorter.contains(
            #[trigger] other[k],
        ) by {
            assert(left.contains(right[k]));
            let p = choose|p: int| 0 <= p < left.len() && left[p] == right[k];
            if p == n {
                assert(filepath::path_before(
                    right[k].git_common_directory,
                    right[m].git_common_directory,
                ));
                filepath::lemma_path_total(
                    right[k].git_common_directory,
                    right[m].git_common_directory,
                );
            }
            assert(shorter[p] == other[k]);
        }
        lemma_gathered_length(shorter, other);
        assert(left =~= shorter.push(left[n]));
        assert(right =~= other.push(right[m]));
    }
}

proof fn lemma_gathered_once(
    left: Seq<RepositoryView>,
    right: Seq<RepositoryView>,
    found: spec_fn(RepositoryView) -> bool,
)
    requires
        gathers(left, found),
        gathers(right, found),
        found_normal(found),
    ensures
        left == right,
{
    assert forall|k: int| 0 <= k < left.len() implies right.contains(#[trigger] left[k]) by {
        lemma_gathered_entry(left, right, found, k);
    }
    assert forall|k: int| 0 <= k < right.len() implies left.contains(#[trigger] right[k]) by {
        lemma_gathered_entry(right, left, found, k);
    }
    assert(laws::in_common_order(left) && laws::in_common_order(right)) by {
        reveal(gathers);
    }
    lemma_gathered_length(left, right);
}

/// Whether a search has found a repository so far: below a root that it is done with, or by a visit
/// of the walk that it is at.
spec fn so_far(
    world: spec_fn(RequestView) -> ReplyView,
    search: DiscovererView,
    one: RepositoryView,
) -> bool {
    exists|i: int, n: nat| #[trigger] found_by(world, search, one, i, n)
}

/// Whether the visit number `n` below the root number `i` belongs to a search so far, and finds a
/// repository.
spec fn found_by(
    world: spec_fn(RequestView) -> ReplyView,
    search: DiscovererView,
    one: RepositoryView,
    i: int,
    n: nat,
) -> bool {
    &&& 0 <= i < search.next_root
    &&& i < search.roots.len()
    &&& canonical(world, search.roots[i]) matches Ok(root) && found_at(
        world,
        root,
        search.scan_depth,
        n,
    ) == Some(one) && (search.walk matches Some(walk) ==> (walk.root == root ==> n
        < walk.next))
}

/// Whether a search is one of a world.
spec fn belongs(world: spec_fn(RequestView) -> ReplyView, search: DiscovererView) -> bool {
    &&& laws::search_coherent(search)
    &&& search.next_root <= search.roots.len()
    &&& gathers(search.repositories, |one: RepositoryView| so_far(world, search, one))
    &&& forall|i: int|
        0 <= i < search.next_root ==> ((#[trigger] canonical(world, search.roots[i])) matches Ok(
            root,
        ) ==> search.seen_roots.contains(filepath::components(root)))
    &&& forall|k: int|
        0 <= k < search.seen_roots.len() ==> seen_before(
            world,
            search,
            #[trigger] search.seen_roots[k],
        )
    &&& search.walk matches Some(walk) ==> {
        &&& search.next_root > 0
        &&& canonical(world, search.roots[search.next_root - 1]) == Ok::<
            Seq<u8>,
            PathFailureView,
        >(walk.root)
        &&& walk == walk_at(world, walk.root, search.scan_depth, walk.next)
        &&& faithful(world, walk, search.scan_depth, search.replies)
    }
}

/// Whether one of the roots so far has the given components.
spec fn seen_before(
    world: spec_fn(RequestView) -> ReplyView,
    search: DiscovererView,
    parts: Seq<Seq<u8>>,
) -> bool {
    exists|i: int|
        0 <= i < search.next_root && ((#[trigger] canonical(world, search.roots[i])) matches Ok(root)
            && filepath::components(root) == parts)
}

proof fn lemma_gathers_same(
    repositories: Seq<RepositoryView>,
    found: spec_fn(RepositoryView) -> bool,
    other: spec_fn(RepositoryView) -> bool,
)
    requires
        gathers(repositories, found),
        forall|one: RepositoryView| #[trigger] found(one) <==> #[trigger] other(one),
    ensures
        gathers(repositories, other),
{
    assert(found =~= other);
}

proof fn lemma_so_far_normal(world: spec_fn(RequestView) -> ReplyView, search: DiscovererView)
    requires
        normal(world),
    ensures
        found_normal(|one: RepositoryView| so_far(world, search, one)),
{
    let found = |one: RepositoryView| so_far(world, search, one);
    assert forall|left: RepositoryView, right: RepositoryView|
        #![trigger found(left), found(right)]
        found(left) && found(right) implies {
        &&& filepath::same_path(left.git_common_directory, right.git_common_directory)
            ==> left.git_common_directory == right.git_common_directory
        &&& filepath::same_path(left.path, right.path) ==> left.path == right.path
    } by {
        lemma_so_far_canonical(world, search, left);
        lemma_so_far_canonical(world, search, right);
    }
}

proof fn lemma_so_far_canonical(
    world: spec_fn(RequestView) -> ReplyView,
    search: DiscovererView,
    one: RepositoryView,
)
    requires
        so_far(world, search, one),
    ensures
        is_canonical(world, one.path),
        is_canonical(world, one.git_common_directory),
{
    let (i, n) = choose|i: int, n: nat| #[trigger] found_by(world, search, one, i, n);
    lemma_found_is_canonical(
        world,
        canonical(world, search.roots[i])->Ok_0,
        search.scan_depth,
        n,
    );
}

proof fn lemma_driven_prefix(
    world: spec_fn(RequestView) -> ReplyView,
    walk: WalkView,
    scan_depth: u32,
    replies: Seq<ReplyView>,
    j: int,
)
    requires
        faithful(world, walk, scan_depth, replies),
        0 <= j <= replies.len() <= 5,
    ensures
        driven(world, walk, scan_depth, Seq::empty(), 5) == driven(
            world,
            walk,
            scan_depth,
            replies.take(j),
            (5 - j) as nat,
        ),
    decreases j,
{
    if j == 0 {
        assert(replies.take(0) =~= Seq::empty());
    } else {
        lemma_driven_prefix(world, walk, scan_depth, replies, j - 1);
        assert(visit_step(walk, scan_depth, replies.take(j - 1)) is Ask);
        assert(replies.take(j) =~= replies.take(j - 1).push(replies[j - 1]));
    }
}

proof fn lemma_visit_done(
    world: spec_fn(RequestView) -> ReplyView,
    walk: WalkView,
    scan_depth: u32,
    replies: Seq<ReplyView>,
    visit: VisitView,
    next: int,
)
    requires
        faithful(world, walk, scan_depth, replies),
        visit_step(walk, scan_depth, replies) == Flow::<VisitView>::Done(visit, next),
    ensures
        visit == visit_in(world, walk, scan_depth),
{
    let n = replies.len() as int;
    if n > 0 {
        assert(visit_step(walk, scan_depth, replies.take(n - 1)) is Ask);
        lemma_requests(walk, scan_depth, replies.take(n - 1));
    }
    lemma_driven_prefix(world, walk, scan_depth, replies, n);
    assert(replies.take(n) =~= replies);
}

proof fn lemma_walk_over(
    world: spec_fn(RequestView) -> ReplyView,
    root: Seq<u8>,
    scan_depth: u32,
    k: nat,
    n: nat,
)
    requires
        k <= n,
        walk_at(world, root, scan_depth, k).next >= walk_at(
            world,
            root,
            scan_depth,
            k,
        ).pending.len(),
    ensures
        walk_at(world, root, scan_depth, n) == walk_at(world, root, scan_depth, k),
        found_at(world, root, scan_depth, n) is None,
    decreases n,
{
    if k < n {
        lemma_walk_over(world, root, scan_depth, k, (n - 1) as nat);
    }
}

proof fn lemma_new_root(
    world: spec_fn(RequestView) -> ReplyView,
    search: DiscovererView,
    reply: ReplyView,
)
    requires
        normal(world),
        belongs(world, search),
        search.walk is None,
        search.next_root < search.roots.len(),
        reply == world(RequestView::Canonicalize(search.roots[search.next_root as int])),
    ensures
        belongs(world, discovery::search_advance(search, reply)),
{
    let next = discovery::search_advance(search, reply);
    laws::law_searches_stay_coherent(search.roots, search.scan_depth, search, reply);
    let here = search.next_root as int;
    let found = |one: RepositoryView| so_far(world, search, one);
    let more = |one: RepositoryView| so_far(world, next, one);
    assert forall|one: RepositoryView| #[trigger] found(one) <==> #[trigger] more(one) by {
        if so_far(world, search, one) {
            let (i, n) = choose|i: int, n: nat| #[trigger] found_by(world, search, one, i, n);
            let root = canonical(world, search.roots[i])->Ok_0;
            assert(search.seen_roots.contains(filepath::components(root)));
            assert(found_by(world, next, one, i, n));
        }
        if so_far(world, next, one) {
            let (i, n) = choose|i: int, n: nat| #[trigger] found_by(world, next, one, i, n);
            if i < here {
                assert(found_by(world, search, one, i, n));
            } else {
                let root = canonical(world, search.roots[here])->Ok_0;
                assert(next.walk is None);
                assert(search.seen_roots.contains(filepath::components(root)));
                let k = choose|k: int|
                    0 <= k < search.seen_roots.len() && search.seen_roots[k]
                        == filepath::components(root);
                assert(seen_before(world, search, search.seen_roots[k]));
                let j = choose|j: int|
                    0 <= j < search.next_root && ((#[trigger] canonical(
                        world,
                        search.roots[j],
                    )) matches Ok(other) && filepath::components(other)
                        == filepath::components(root));
                assert(canonical(world, search.roots[j])->Ok_0 == root);
                assert(found_by(world, search, one, j, n));
            }
        }
    }
    lemma_gathers_same(search.repositories, found, more);
    assert forall|i: int| 0 <= i < next.next_root implies ((#[trigger] canonical(
        world,
        next.roots[i],
    )) matches Ok(root) ==> next.seen_roots.contains(filepath::components(root))) by {
        if let Ok(root) = canonical(world, next.roots[i]) {
            if i < here {
                assert(search.seen_roots.contains(filepath::components(root)));
                let k = choose|k: int|
                    0 <= k < search.seen_roots.len() && search.seen_roots[k]
                        == filepath::components(root);
                assert(next.seen_roots[k] == filepath::components(root));
            } else if !search.seen_roots.contains(filepath::components(root)) {
                assert(next.seen_roots[search.seen_roots.len() as int] == filepath::components(
                    root,
                ));
            }
        }
    }
    assert forall|k: int| 0 <= k < next.seen_roots.len() implies seen_before(
        world,
        next,
        #[trigger] next.seen_roots[k],
    ) by {
        if k < search.seen_roots.len() {
            assert(seen_before(world, search, search.seen_roots[k]));
            let j = choose|j: int|
                0 <= j < search.next_root && ((#[trigger] canonical(world, search.roots[j]))
                    matches Ok(root) && filepath::components(root) == search.seen_roots[k]);
            assert(canonical(world, next.roots[j]) is Ok);
        } else {
            assert(canonical(world, next.roots[here]) is Ok);
        }
    }
}

proof fn lemma_visited(
    world: spec_fn(RequestView) -> ReplyView,
    search: DiscovererView,
    reply: ReplyView,
)
    requires
        normal(world),
        belongs(world, search),
        search.walk is Some,
        discovery::search_request(search) matches Some(request) && reply == world(request),
    ensures
        belongs(world, discovery::search_advance(search, reply)),
{
    let next = discovery::search_advance(search, reply);
    let walk = search.walk->0;
    let replies = search.replies.push(reply);
    laws::law_searches_stay_coherent(search.roots, search.scan_depth, search, reply);
    lemma_faithful_push(
        world,
        walk,
        search.scan_depth,
        search.replies,
        discovery::search_request(search)->0,
    );
    let found = |one: RepositoryView| so_far(world, search, one);
    let more = |one: RepositoryView| so_far(world, next, one);
    assert forall|k: int| 0 <= k < next.seen_roots.len() implies seen_before(
        world,
        next,
        #[trigger] next.seen_roots[k],
    ) by {
        assert(seen_before(world, search, search.seen_roots[k]));
        let j = choose|j: int|
            0 <= j < search.next_root && ((#[trigger] canonical(world, search.roots[j]))
                matches Ok(root) && filepath::components(root) == search.seen_roots[k]);
        assert(canonical(world, next.roots[j]) is Ok);
    }
    match visit_step(walk, search.scan_depth, replies) {
        Flow::Ask(_) => {
            assert forall|one: RepositoryView| #[trigger] found(one) <==> #[trigger] more(one) by {
                if so_far(world, search, one) {
                    let (i, n) = choose|i: int, n: nat| #[trigger]
                        found_by(world, search, one, i, n);
                    assert(found_by(world, next, one, i, n));
                }
                if so_far(world, next, one) {
                    let (i, n) = choose|i: int, n: nat| #[trigger]
                        found_by(world, next, one, i, n);
                    assert(found_by(world, search, one, i, n));
                }
            }
            lemma_gathers_same(search.repositories, found, more);
        },
        Flow::Done(visit, end) => {
            lemma_visit_done(world, walk, search.scan_depth, replies, visit, end);
            let stepped = discovery::step_walk(walk, visit);
            assert(stepped == walk_at(world, walk.root, search.scan_depth, walk.next + 1));
            assert(found_at(world, walk.root, search.scan_depth, walk.next) == visit.repository);
            assert forall|one: RepositoryView| #[trigger]
                more(one) <==> found(one) || visit.repository == Some(one) by {
                if so_far(world, search, one) {
                    let (i, n) = choose|i: int, n: nat| #[trigger]
                        found_by(world, search, one, i, n);
                    assert(found_by(world, next, one, i, n));
                }
                if visit.repository == Some(one) {
                    assert(found_by(world, next, one, search.next_root - 1, walk.next));
                }
                if so_far(world, next, one) {
                    let (i, n) = choose|i: int, n: nat| #[trigger]
                        found_by(world, next, one, i, n);
                    let root = canonical(world, search.roots[i])->Ok_0;
                    if root == walk.root && n >= walk.next {
                        if n > walk.next {
                            assert(next.walk is None);
                            lemma_walk_over(
                                world,
                                walk.root,
                                search.scan_depth,
                                walk.next + 1,
                                n,
                            );
                        }
                        assert(n == walk.next);
                    } else {
                        assert(found_by(world, search, one, i, n));
                    }
                }
            }
            match visit.repository {
                None => lemma_gathers_same(search.repositories, found, more),
                Some(one) => {
                    lemma_so_far_normal(world, next);
                    lemma_gathers_keep(search.repositories, found, one, more);
                },
            }
        },
    }
}

proof fn lemma_searched(
    world: spec_fn(RequestView) -> ReplyView,
    roots: Seq<Seq<u8>>,
    scan_depth: u32,
    n: nat,
)
    requires
        normal(world),
    ensures
        belongs(world, searched(world, discovery::new_search(roots, scan_depth), n)),
        searched(world, discovery::new_search(roots, scan_depth), n).roots == roots,
        searched(world, discovery::new_search(roots, scan_depth), n).scan_depth == scan_depth,
    decreases n,
{
    let start = discovery::new_search(roots, scan_depth);
    if n == 0 {
        laws::law_searches_stay_coherent(roots, scan_depth, start, ReplyView::Exists(false));
        let found = |one: RepositoryView| so_far(world, start, one);
        assert(gathers(start.repositories, found)) by {
            reveal(gathers);
            assert forall|one: RepositoryView| #[trigger] found(one) implies laws::covers(
                start.repositories,
                one.git_common_directory,
                one.path,
            ) by {
                let (i, n) = choose|i: int, n: nat| #[trigger] found_by(world, start, one, i, n);
            }
        }
    } else {
        lemma_searched(world, roots, scan_depth, (n - 1) as nat);
        let before = searched(world, start, (n - 1) as nat);
        if let Some(request) = discovery::search_request(before) {
            match before.walk {
                None => lemma_new_root(world, before, world(request)),
                Some(_) => lemma_visited(world, before, world(request)),
            }
        }
    }
}

proof fn lemma_search_over(
    world: spec_fn(RequestView) -> ReplyView,
    search: DiscovererView,
    one: RepositoryView,
)
    requires
        belongs(world, search),
        discovery::search_request(search) is None,
    ensures
        so_far(world, search, one) <==> found_below(world, search.roots, search.scan_depth, one),
{
    assert(search.walk is None);
    assert(search.next_root == search.roots.len());
    if so_far(world, search, one) {
        let (i, n) = choose|i: int, n: nat| #[trigger] found_by(world, search, one, i, n);
        assert(search.roots.contains(search.roots[i]));
        assert(found_at(
            world,
            canonical(world, search.roots[i])->Ok_0,
            search.scan_depth,
            n,
        ) == Some(one));
    }
    if found_below(world, search.roots, search.scan_depth, one) {
        let (root, n) = choose|root: Seq<u8>, n: nat|
            #![trigger search.roots.contains(root), found_at(world, canonical(world, root)->Ok_0, search.scan_depth, n)]
            search.roots.contains(root) && canonical(world, root) is Ok && found_at(
                world,
                canonical(world, root)->Ok_0,
                search.scan_depth,
                n,
            ) == Some(one);
        let i = choose|i: int| 0 <= i < search.roots.len() && search.roots[i] == root;
        assert(found_by(world, search, one, i, n));
    }
}

proof fn lemma_found_below(
    world: spec_fn(RequestView) -> ReplyView,
    roots: Seq<Seq<u8>>,
    others: Seq<Seq<u8>>,
    scan_depth: u32,
    one: RepositoryView,
)
    requires
        forall|root: Seq<u8>| #[trigger] roots.contains(root) ==> others.contains(root),
        found_below(world, roots, scan_depth, one),
    ensures
        found_below(world, others, scan_depth, one),
{
    let (root, n) = choose|root: Seq<u8>, n: nat|
        #![trigger roots.contains(root), found_at(world, canonical(world, root)->Ok_0, scan_depth, n)]
        roots.contains(root) && canonical(world, root) is Ok && found_at(
            world,
            canonical(world, root)->Ok_0,
            scan_depth,
            n,
        ) == Some(one);
    assert(others.contains(root));
}

/// Two searches of one file system, with the same roots in another order and with other
/// repetitions, find the same repositories.
pub proof fn law_the_order_of_roots_does_not_matter(
    world: spec_fn(RequestView) -> ReplyView,
    roots: Seq<Seq<u8>>,
    others: Seq<Seq<u8>>,
    scan_depth: u32,
    n: nat,
    m: nat,
)
    requires
        normal(world),
        forall|root: Seq<u8>| #[trigger] roots.contains(root) <==> others.contains(root),
        discovery::search_request(
            searched(world, discovery::new_search(roots, scan_depth), n),
        ) is None,
        discovery::search_request(
            searched(world, discovery::new_search(others, scan_depth), m),
        ) is None,
    ensures
        discovery::search_result(
            searched(world, discovery::new_search(roots, scan_depth), n),
        ).repositories == discovery::search_result(
            searched(world, discovery::new_search(others, scan_depth), m),
        ).repositories,
{
    let left = searched(world, discovery::new_search(roots, scan_depth), n);
    let right = searched(world, discovery::new_search(others, scan_depth), m);
    lemma_searched(world, roots, scan_depth, n);
    lemma_searched(world, others, scan_depth, m);
    let found = |one: RepositoryView| so_far(world, left, one);
    let also = |one: RepositoryView| so_far(world, right, one);
    assert forall|one: RepositoryView| #[trigger] also(one) <==> #[trigger] found(one) by {
        lemma_search_over(world, left, one);
        lemma_search_over(world, right, one);
        if found_below(world, roots, scan_depth, one) {
            lemma_found_below(world, roots, others, scan_depth, one);
        }
        if found_below(world, others, scan_depth, one) {
            assert forall|root: Seq<u8>| #[trigger] others.contains(root) implies roots.contains(
                root,
            ) by {}
            lemma_found_below(world, others, roots, scan_depth, one);
        }
    }
    lemma_gathers_same(right.repositories, also, found);
    lemma_so_far_normal(world, left);
    lemma_gathered_once(left.repositories, right.repositories, found);
}

/// How the visits of two searches compare of which one goes deeper.
spec fn goes_deeper(depth: u32, scan_depth: u32, visit: VisitView, deeper: VisitView) -> bool {
    &&& visit.repository == deeper.repository
    &&& visit.visited == deeper.visited
    &&& if depth < scan_depth {
        visit.children == deeper.children
    } else {
        visit.children.len() == 0
    }
}

proof fn lemma_visit_deeper(
    walk: WalkView,
    other: WalkView,
    scan_depth: u32,
    larger: u32,
    replies: Seq<ReplyView>,
)
    requires
        scan_depth <= larger,
        same_visit(walk, other),
    ensures
        match (visit_step(walk, scan_depth, replies), visit_step(other, larger, replies)) {
            (Flow::Ask(request), Flow::Ask(asked)) => request == asked,
            (Flow::Done(visit, _), Flow::Done(deeper, _)) => goes_deeper(
                walk.pending[walk.next as int].depth,
                scan_depth,
                visit,
                deeper,
            ),
            _ => false,
        },
{
}

/// Whether two walks are at the same visit.
spec fn same_visit(walk: WalkView, other: WalkView) -> bool {
    &&& walk.root == other.root
    &&& walk.visited == other.visited
    &&& walk.pending[walk.next as int] == other.pending[other.next as int]
}

proof fn lemma_driven_deeper(
    world: spec_fn(RequestView) -> ReplyView,
    walk: WalkView,
    other: WalkView,
    scan_depth: u32,
    larger: u32,
    replies: Seq<ReplyView>,
    more: nat,
)
    requires
        scan_depth <= larger,
        same_visit(walk, other),
    ensures
        match (
            driven(world, walk, scan_depth, replies, more),
            driven(world, other, larger, replies, more),
        ) {
            (Some(visit), Some(deeper)) => goes_deeper(
                walk.pending[walk.next as int].depth,
                scan_depth,
                visit,
                deeper,
            ),
            (None, None) => true,
            _ => false,
        },
    decreases more,
{
    lemma_visit_deeper(walk, other, scan_depth, larger, replies);
    if let Flow::Ask(request) = visit_step(walk, scan_depth, replies) {
        if more > 0 {
            lemma_driven_deeper(
                world,
                walk,
                other,
                scan_depth,
                larger,
                replies.push(world(request)),
                (more - 1) as nat,
            );
        }
    }
}

/// Whether a walk is in step with one that goes deeper: as long as it is not over, both are at the
/// same visit, and only directories that are too deep for it are left to the other one alone.
spec fn in_step(walk: WalkView, other: WalkView, scan_depth: u32) -> bool {
    &&& walk.root == other.root
    &&& walk.visited == other.visited
    &&& walk.next == other.next
    &&& walk.pending.is_prefix_of(other.pending)
    &&& walk.next < walk.pending.len()
    &&& walk.pending[walk.next as int].depth < scan_depth ==> walk.pending == other.pending
    &&& forall|i: int, j: int|
        walk.next <= i <= j < walk.pending.len() ==> (#[trigger] walk.pending[i]).depth <= (
        #[trigger] walk.pending[j]).depth <= scan_depth
    &&& forall|j: int|
        walk.next <= j < walk.pending.len() ==> (#[trigger] walk.pending[j]).depth
            <= walk.pending[walk.next as int].depth + 1
}

proof fn lemma_step_deeper(
    world: spec_fn(RequestView) -> ReplyView,
    walk: WalkView,
    other: WalkView,
    scan_depth: u32,
    larger: u32,
)
    requires
        scan_depth <= larger,
        in_step(walk, other, scan_depth),
    ensures
        visit_in(world, walk, scan_depth).repository == visit_in(world, other, larger).repository,
        ({
            let next = discovery::step_walk(walk, visit_in(world, walk, scan_depth));
            let deeper = discovery::step_walk(other, visit_in(world, other, larger));
            next.next < next.pending.len() ==> in_step(next, deeper, scan_depth)
        }),
{
    assert(walk.pending[walk.next as int] == other.pending[other.next as int]);
    lemma_driven_deeper(world, walk, other, scan_depth, larger, Seq::empty(), 5);
    lemma_driven(world, walk, scan_depth, Seq::empty(), 5);
    lemma_driven(world, other, larger, Seq::empty(), 5);
    let visit = visit_in(world, walk, scan_depth);
    let visited = visit_in(world, other, larger);
    let next = discovery::step_walk(walk, visit);
    let deeper = discovery::step_walk(other, visited);
    let depth = walk.pending[walk.next as int].depth;
    let n = walk.pending.len() as int;
    assert(goes_deeper(depth, scan_depth, visit, visited));
    if next.next < next.pending.len() {
        assert forall|k: int| 0 <= k < n implies #[trigger] next.pending[k] == walk.pending[k] by {}
        assert forall|k: int| n <= k < next.pending.len() implies (#[trigger] next.pending[k]).depth
            == depth + 1 && depth < scan_depth by {}
        assert(next.pending.is_prefix_of(deeper.pending)) by {
            if depth < scan_depth {
                assert(next.pending == deeper.pending);
            } else {
                assert(next.pending =~= walk.pending);
                assert(next.pending =~= deeper.pending.subrange(0, n));
            }
        }
        assert forall|i: int, j: int|
            next.next <= i <= j < next.pending.len() implies (#[trigger] next.pending[i]).depth <= (
        #[trigger] next.pending[j]).depth <= scan_depth by {
            if j < n {
                assert(walk.pending[i].depth <= walk.pending[j].depth <= scan_depth);
            } else if i < n {
                assert(walk.pending[i].depth <= walk.pending[walk.next as int].depth + 1);
            }
        }
        let now = next.pending[next.next as int].depth;
        assert(depth <= now) by {
            if next.next < n {
                assert(walk.pending[walk.next as int].depth
                    <= walk.pending[next.next as int].depth);
            }
        }
        assert forall|j: int| next.next <= j < next.pending.len() implies (
        #[trigger] next.pending[j]).depth <= now + 1 by {
            if j < n {
                assert(walk.pending[j].depth <= depth + 1);
            }
        }
        if now < scan_depth {
            assert(depth < scan_depth);
            assert(next.pending == deeper.pending);
        }
    }
}

proof fn lemma_walk_deeper(
    world: spec_fn(RequestView) -> ReplyView,
    root: Seq<u8>,
    scan_depth: u32,
    larger: u32,
    n: nat,
)
    requires
        scan_depth <= larger,
        walk_at(world, root, scan_depth, n).next < walk_at(world, root, scan_depth, n).pending.len(),
    ensures
        in_step(
            walk_at(world, root, scan_depth, n),
            walk_at(world, root, larger, n),
            scan_depth,
        ),
    decreases n,
{
    if n > 0 {
        let k = (n - 1) as nat;
        let before = walk_at(world, root, scan_depth, k);
        assert(before.next < before.pending.len());
        lemma_walk_deeper(world, root, scan_depth, larger, k);
        lemma_step_deeper(world, before, walk_at(world, root, larger, k), scan_depth, larger);
    }
}

proof fn lemma_found_deeper(
    world: spec_fn(RequestView) -> ReplyView,
    roots: Seq<Seq<u8>>,
    scan_depth: u32,
    larger: u32,
    one: RepositoryView,
)
    requires
        scan_depth <= larger,
        found_below(world, roots, scan_depth, one),
    ensures
        found_below(world, roots, larger, one),
{
    let (root, n) = choose|root: Seq<u8>, n: nat|
        #![trigger roots.contains(root), found_at(world, canonical(world, root)->Ok_0, scan_depth, n)]
        roots.contains(root) && canonical(world, root) is Ok && found_at(
            world,
            canonical(world, root)->Ok_0,
            scan_depth,
            n,
        ) == Some(one);
    let place = canonical(world, root)->Ok_0;
    lemma_walk_deeper(world, place, scan_depth, larger, n);
    lemma_step_deeper(
        world,
        walk_at(world, place, scan_depth, n),
        walk_at(world, place, larger, n),
        scan_depth,
        larger,
    );
    assert(found_at(world, place, larger, n) == Some(one));
    assert(roots.contains(root));
}

/// A search of a file system that goes deeper finds no less: every repository that a search finds,
/// as its Git common directory tells it, is found by one with the same roots that goes deeper.
pub proof fn law_deeper_searches_find_no_less(
    world: spec_fn(RequestView) -> ReplyView,
    roots: Seq<Seq<u8>>,
    scan_depth: u32,
    larger: u32,
    n: nat,
    m: nat,
    k: int,
)
    requires
        normal(world),
        scan_depth <= larger,
        discovery::search_request(
            searched(world, discovery::new_search(roots, scan_depth), n),
        ) is None,
        discovery::search_request(
            searched(world, discovery::new_search(roots, larger), m),
        ) is None,
        0 <= k < discovery::search_result(
            searched(world, discovery::new_search(roots, scan_depth), n),
        ).repositories.len(),
    ensures
        exists|j: int|
            0 <= j < discovery::search_result(
                searched(world, discovery::new_search(roots, larger), m),
            ).repositories.len() && (#[trigger] discovery::search_result(
                searched(world, discovery::new_search(roots, larger), m),
            ).repositories[j]).git_common_directory == discovery::search_result(
                searched(world, discovery::new_search(roots, scan_depth), n),
            ).repositories[k].git_common_directory,
{
    let left = searched(world, discovery::new_search(roots, scan_depth), n);
    let right = searched(world, discovery::new_search(roots, larger), m);
    lemma_searched(world, roots, scan_depth, n);
    lemma_searched(world, roots, larger, m);
    laws::law_discoveries_are_sorted_and_distinct(left);
    laws::law_discoveries_are_sorted_and_distinct(right);
    let one = discovery::search_result(left).repositories[k];
    assert(left.repositories.contains(one));
    let i = choose|i: int| 0 <= i < left.repositories.len() && left.repositories[i] == one;
    let found = |one: RepositoryView| so_far(world, left, one);
    let also = |one: RepositoryView| so_far(world, right, one);
    lemma_gathered_is_found(left.repositories, found, i);
    assert(so_far(world, left, one));
    lemma_search_over(world, left, one);
    lemma_found_deeper(world, roots, scan_depth, larger, one);
    lemma_search_over(world, right, one);
    assert(also(one));
    lemma_found_is_gathered(right.repositories, also, one);
    let p = lemma_covering(right.repositories, one.git_common_directory, one.path);
    let other = right.repositories[p];
    lemma_gathered_is_found(right.repositories, also, p);
    lemma_so_far_normal(world, right);
    assert(also(other));
    assert(other.git_common_directory == one.git_common_directory);
    assert(discovery::search_result(right).repositories.contains(other));
    let j = choose|j: int|
        0 <= j < discovery::search_result(right).repositories.len() && discovery::search_result(
            right,
        ).repositories[j] == other;
    assert(discovery::search_result(right).repositories[j].git_common_directory
        == one.git_common_directory);
}

/// What a finished search tells is what the walks below its roots find: every repository that it
/// tells was found, and every one that was found is told, as its Git common directory tells it, by
/// the first of its paths.
pub proof fn law_results_are_what_is_found(
    world: spec_fn(RequestView) -> ReplyView,
    roots: Seq<Seq<u8>>,
    scan_depth: u32,
    n: nat,
    one: RepositoryView,
)
    requires
        normal(world),
        discovery::search_request(
            searched(world, discovery::new_search(roots, scan_depth), n),
        ) is None,
    ensures
        discovery::search_result(
            searched(world, discovery::new_search(roots, scan_depth), n),
        ).repositories.contains(one) ==> found_below(world, roots, scan_depth, one),
        found_below(world, roots, scan_depth, one) ==> exists|other: RepositoryView|
            #![trigger found_below(world, roots, scan_depth, other)]
            discovery::search_result(
                searched(world, discovery::new_search(roots, scan_depth), n),
            ).repositories.contains(other) && found_below(world, roots, scan_depth, other)
                && other.git_common_directory == one.git_common_directory
                && !filepath::path_before(one.path, other.path),
{
    let search = searched(world, discovery::new_search(roots, scan_depth), n);
    let told = discovery::search_result(search).repositories;
    lemma_searched(world, roots, scan_depth, n);
    laws::law_discoveries_are_sorted_and_distinct(search);
    let found = |one: RepositoryView| so_far(world, search, one);
    lemma_search_over(world, search, one);
    if told.contains(one) {
        let k = choose|k: int| 0 <= k < told.len() && told[k] == one;
        assert(search.repositories.contains(told[k]));
        let i = choose|i: int| 0 <= i < search.repositories.len() && search.repositories[i] == one;
        lemma_gathered_is_found(search.repositories, found, i);
        assert(found(one));
    }
    if found_below(world, roots, scan_depth, one) {
        assert(found(one));
        lemma_found_is_gathered(search.repositories, found, one);
        let p = lemma_covering(search.repositories, one.git_common_directory, one.path);
        let other = search.repositories[p];
        lemma_gathered_is_found(search.repositories, found, p);
        lemma_so_far_normal(world, search);
        assert(found(other));
        lemma_search_over(world, search, other);
        assert(found_below(world, roots, scan_depth, other));
        assert(told.contains(search.repositories[p]));
        assert(other.git_common_directory == one.git_common_directory);
    }
}

} // verus!
