//! Inspections of a repository that Git tells truly about.
use crate::command::{CommandLineView, CommandResultView, ReplyView, RequestView};
use crate::flow;
use crate::flow::Flow;
use crate::inspection;
use crate::inspection::{InventoryWorktreeView, RepositoryInspectionView};
use crate::inspection::{WorktreeClassification, WorktreeInspectionView};
use crate::text;
use vstd::prelude::*;
use vstd::utf8::*;

verus! {

/// A repository: the references that exist in it, and the upstreams of its branches.
pub struct GitModel {
    pub references: Set<Seq<char>>,
    pub upstreams: Map<Seq<char>, Seq<char>>,
}

/// Whether a line runs Git on a repository, and on no other that the surroundings may name,
/// without taking locks that it can do without.
pub open spec fn runs_git(line: CommandLineView, repository: Seq<u8>) -> bool {
    &&& line.program == "git"@
    &&& line.directory == Some(repository)
    &&& line.removed.contains("GIT_DIR"@)
    &&& line.removed.contains("GIT_WORK_TREE"@)
    &&& line.environment.contains(("GIT_OPTIONAL_LOCKS"@, "0"@))
}

/// Whether a reply tells that a command ended with an exit code.
pub open spec fn exits(reply: ReplyView, code: i32) -> bool {
    reply matches ReplyView::Command(CommandResultView::Exited { code: found, .. }) && found == Some(
        code,
    )
}

/// Whether a reply tells that a command succeeded and printed a text.
pub open spec fn prints(reply: ReplyView, printed: Seq<char>) -> bool {
    reply matches ReplyView::Command(CommandResultView::Exited { code, stdout, .. }) && code
        == Some(0i32) && stdout == encode_utf8(printed)
}

/// Whether a name has no white space at its ends.
pub open spec fn plain(name: Seq<char>) -> bool {
    name.len() > 0 && !text::white_space(name[0]) && !text::white_space(name.last())
}

/// Whether Git tells truly which references exist, and what the upstream of a branch is: a line
/// with its name, or an empty line where it has none.
pub open spec fn tells_branches(
    world: spec_fn(RequestView) -> ReplyView,
    repository: Seq<u8>,
    model: GitModel,
) -> bool {
    &&& forall|line: CommandLineView|
        runs_git(line, repository) && line.arguments.len() == 5 && line.arguments.take(4) =~= seq![
            "show-ref"@,
            "--verify"@,
            "--quiet"@,
            "--"@,
        ] ==> exits(
            #[trigger] world(RequestView::Run(line)),
            if model.references.contains(line.arguments[4]) {
                0
            } else {
                1
            },
        )
    &&& forall|line: CommandLineView|
        runs_git(line, repository) && line.arguments.len() == 4 && line.arguments.take(3) =~= seq![
            "for-each-ref"@,
            "--format=%(upstream)"@,
            "--count=1"@,
        ] ==> prints(
            #[trigger] world(RequestView::Run(line)),
            if model.upstreams.contains_key(line.arguments[3]) {
                model.upstreams[line.arguments[3]].push('\n')
            } else {
                seq!['\n']
            },
        )
    &&& forall|branch: Seq<char>| #[trigger]
        model.upstreams.contains_key(branch) ==> plain(model.upstreams[branch])
}

/// What a worktree is: the first one of a repository and a bare one are the main worktree; of the
/// others, one whose directory is gone is prunable, then one without a branch is detached, and one
/// with a branch is what its branch and the upstream of the branch make it.
pub open spec fn is_classified(
    model: GitModel,
    worktree: InventoryWorktreeView,
    first: bool,
    classification: WorktreeClassification,
) -> bool {
    let on_branch = !first && !worktree.bare && !worktree.prunable && !worktree.detached;
    let branch = worktree.branch->0;
    let known = on_branch && model.references.contains(branch);
    let followed = known && model.upstreams.contains_key(branch);
    &&& classification is MainWorktree <==> first || worktree.bare
    &&& classification is PrunableWorktree <==> !first && !worktree.bare && worktree.prunable
    &&& classification is DetachedWorktree <==> !first && !worktree.bare && !worktree.prunable
        && worktree.detached
    &&& classification is DanglingSymbolicHead <==> on_branch && !known
    &&& classification is NoUpstream <==> known && !followed
    &&& classification is UpstreamExists <==> followed && model.references.contains(
        model.upstreams[branch],
    )
    &&& classification is UpstreamMissing <==> followed && !model.references.contains(
        model.upstreams[branch],
    )
}

pub(crate) proof fn lemma_printed_name(name: Seq<char>)
    requires
        plain(name),
    ensures
        text::utf8_text(encode_utf8(name.push('\n'))) == Ok::<Seq<char>, Seq<char>>(
            name.push('\n'),
        ),
        text::trimmed(name.push('\n')) == name,
{
    let line = name.push('\n');
    encode_utf8_valid_utf8(line);
    encode_utf8_decode_utf8(line);
    reveal_with_fuel(text::trim_end, 3);
    assert(line[0] == name[0]);
    assert(text::trim_start(line) == line);
    assert(line.drop_last() =~= name);
}

proof fn lemma_printed_nothing()
    ensures
        text::utf8_text(encode_utf8(seq!['\n'])) == Ok::<Seq<char>, Seq<char>>(seq!['\n']),
        text::trimmed(seq!['\n']).len() == 0,
{
    let line = seq!['\n'];
    encode_utf8_valid_utf8(line);
    encode_utf8_decode_utf8(line);
    reveal_with_fuel(text::trim_start, 3);
    assert(line.skip(1) =~= Seq::empty());
}

/// What Git replies to the requests about the branch of a worktree, in order.
spec fn branch_replies(
    world: spec_fn(RequestView) -> ReplyView,
    repository: Seq<u8>,
    branch: Seq<char>,
    timeout: u64,
    model: GitModel,
) -> Seq<ReplyView> {
    seq![
        world(RequestView::Run(inspection::ref_command(repository, branch, timeout))),
        world(RequestView::Run(inspection::upstream_command(repository, branch, timeout))),
        world(
            RequestView::Run(
                inspection::ref_command(repository, model.upstreams[branch], timeout),
            ),
        ),
    ]
}

proof fn lemma_branch_replies(
    world: spec_fn(RequestView) -> ReplyView,
    repository: Seq<u8>,
    branch: Seq<char>,
    timeout: u64,
    model: GitModel,
)
    requires
        tells_branches(world, repository, model),
    ensures
        ({
            let replies = branch_replies(world, repository, branch, timeout, model);
            &&& exits(
                replies[0],
                if model.references.contains(branch) {
                    0
                } else {
                    1
                },
            )
            &&& prints(
                replies[1],
                if model.upstreams.contains_key(branch) {
                    model.upstreams[branch].push('\n')
                } else {
                    seq!['\n']
                },
            )
            &&& exits(
                replies[2],
                if model.references.contains(model.upstreams[branch]) {
                    0
                } else {
                    1
                },
            )
        }),
{
    let first = inspection::ref_command(repository, branch, timeout);
    let second = inspection::upstream_command(repository, branch, timeout);
    let third = inspection::ref_command(repository, model.upstreams[branch], timeout);
    lemma_git(first, repository);
    lemma_git(second, repository);
    lemma_git(third, repository);
    let verify = seq!["show-ref"@, "--verify"@, "--quiet"@, "--"@];
    assert(first.arguments.take(4) =~= verify);
    assert(third.arguments.take(4) =~= verify);
    assert(second.arguments.take(3) =~= seq![
        "for-each-ref"@,
        "--format=%(upstream)"@,
        "--count=1"@,
    ]);
    assert(first.arguments[4] == branch);
    assert(third.arguments[4] == model.upstreams[branch]);
    assert(second.arguments[3] == branch);
}

proof fn lemma_git(line: CommandLineView, repository: Seq<u8>)
    requires
        line.program == "git"@,
        line.directory == Some(repository),
        line.removed == crate::command::git_removed(),
        line.environment == crate::command::git_environment(true) || line.environment
            == crate::command::git_environment(false),
    ensures
        runs_git(line, repository),
{
    assert(line.removed[0] == "GIT_DIR"@);
    assert(line.removed[1] == "GIT_WORK_TREE"@);
    assert(line.environment[0] == ("GIT_OPTIONAL_LOCKS"@, "0"@));
}

/// How many requests the classification of a worktree takes.
spec fn requests_of(model: GitModel, worktree: InventoryWorktreeView, first: bool) -> nat {
    if first || worktree.bare || worktree.prunable || worktree.detached {
        0
    } else if !model.references.contains(worktree.branch->0) {
        1
    } else if !model.upstreams.contains_key(worktree.branch->0) {
        2
    } else {
        3
    }
}

/// The classification of a worktree asks Git as many times as it takes, about its branch and the
/// upstream of its branch, and comes out as Git tells it.
proof fn lemma_classified(
    world: spec_fn(RequestView) -> ReplyView,
    repository: Seq<u8>,
    model: GitModel,
    worktree: InventoryWorktreeView,
    first: bool,
    timeout: u64,
    replies: Seq<ReplyView>,
    at: int,
)
    requires
        tells_branches(world, repository, model),
        worktree.detached || worktree.branch is Some,
        0 <= at <= replies.len(),
        forall|j: int|
            0 <= j < requests_of(model, worktree, first) && at + j < replies.len()
                ==> #[trigger] replies[at + j] == branch_replies(
                world,
                repository,
                worktree.branch->0,
                timeout,
                model,
            )[j],
    ensures
        ({
            let told = inspection::classify_flow(
                repository,
                worktree,
                first,
                timeout,
                replies,
                at,
            );
            let count = requests_of(model, worktree, first);
            let known = replies.len() - at;
            &&& known < count ==> (told matches Flow::Ask(request) && world(request)
                == branch_replies(
                world,
                repository,
                worktree.branch->0,
                timeout,
                model,
            )[known])
            &&& known >= count ==> (told matches Flow::Done(found, next) && next == at + count
                && found.issue is None && is_classified(
                model,
                worktree,
                first,
                found.classification,
            ))
        }),
{
    if requests_of(model, worktree, first) > 0 {
        let branch = worktree.branch->0;
        lemma_branch_replies(world, repository, branch, timeout, model);
        let told = branch_replies(world, repository, branch, timeout, model);
        if model.upstreams.contains_key(branch) {
            lemma_printed_name(model.upstreams[branch]);
        }
        lemma_printed_nothing();
        if at < replies.len() {
            assert(replies[at + 0] == told[0]);
        }
        if at + 1 < replies.len() && requests_of(model, worktree, first) > 1 {
            assert(replies[at + 1] == told[1]);
        }
        if at + 2 < replies.len() && requests_of(model, worktree, first) > 2 {
            assert(replies[at + 2] == told[2]);
        }
    }
}

/// In a repository that Git tells truly about, a worktree is classified by what it is: one on an
/// existing branch is `UpstreamMissing` exactly when the branch has an upstream that does not
/// exist, `UpstreamExists` exactly when it has one that does, and `NoUpstream` exactly when it has
/// none; a branch that does not exist leaves a dangling HEAD.
pub proof fn law_worktrees_are_classified_as_they_are(
    world: spec_fn(RequestView) -> ReplyView,
    repository: Seq<u8>,
    model: GitModel,
    worktree: InventoryWorktreeView,
    first: bool,
    timeout: u64,
)
    requires
        tells_branches(world, repository, model),
        worktree.detached || worktree.branch is Some,
    ensures
        flow::answered(
            |replies: Seq<ReplyView>|
                inspection::classify_flow(repository, worktree, first, timeout, replies, 0),
            world,
            Seq::empty(),
            3,
        ) matches Some(found) && found.issue is None && is_classified(
            model,
            worktree,
            first,
            found.classification,
        ),
{
    lemma_driven(world, repository, model, worktree, first, timeout, Seq::empty(), 3);
}

proof fn lemma_driven(
    world: spec_fn(RequestView) -> ReplyView,
    repository: Seq<u8>,
    model: GitModel,
    worktree: InventoryWorktreeView,
    first: bool,
    timeout: u64,
    replies: Seq<ReplyView>,
    more: nat,
)
    requires
        tells_branches(world, repository, model),
        worktree.detached || worktree.branch is Some,
        replies.len() <= requests_of(model, worktree, first) <= replies.len() + more,
        forall|j: int|
            0 <= j < replies.len() ==> #[trigger] replies[j] == branch_replies(
                world,
                repository,
                worktree.branch->0,
                timeout,
                model,
            )[j],
    ensures
        flow::answered(
            |replies: Seq<ReplyView>|
                inspection::classify_flow(repository, worktree, first, timeout, replies, 0),
            world,
            replies,
            more,
        ) matches Some(found) && found.issue is None && is_classified(
            model,
            worktree,
            first,
            found.classification,
        ),
    decreases more,
{
    assert forall|j: int|
        0 <= j < requests_of(model, worktree, first) && 0 + j < replies.len() implies
        #[trigger] replies[0 + j] == branch_replies(
        world,
        repository,
        worktree.branch->0,
        timeout,
        model,
    )[j] by {
        assert(replies[j] == replies[0 + j]);
    }
    lemma_classified(world, repository, model, worktree, first, timeout, replies, 0);
    if let Flow::Ask(request) = inspection::classify_flow(
        repository,
        worktree,
        first,
        timeout,
        replies,
        0,
    ) {
        lemma_driven(
            world,
            repository,
            model,
            worktree,
            first,
            timeout,
            replies.push(world(request)),
            (more - 1) as nat,
        );
    }
}

/// Whether Git fetches every remote and forgets the branches that are gone from them, without
/// asking anybody anything, and then lists the worktrees with NUL behind every field.
pub open spec fn fetches_and_lists(
    world: spec_fn(RequestView) -> ReplyView,
    repository: Seq<u8>,
    list: Seq<u8>,
) -> bool {
    &&& forall|line: CommandLineView|
        runs_git(line, repository) && line.environment.contains(("GIT_TERMINAL_PROMPT"@, "0"@))
            && line.arguments =~= seq![
            "fetch"@,
            "--all"@,
            "--prune"@,
            "--no-recurse-submodules"@,
        ] ==> exits(#[trigger] world(RequestView::Run(line)), 0)
    &&& forall|line: CommandLineView|
        runs_git(line, repository) && line.arguments =~= seq![
            "worktree"@,
            "list"@,
            "--porcelain"@,
            "-z"@,
        ] ==> ((#[trigger] world(RequestView::Run(line))) matches ReplyView::Command(
            CommandResultView::Exited { code, stdout, .. },
        ) && code == Some(0i32) && stdout == list)
}

/// Whether inspected worktrees are listed ones, classified as they are.
pub open spec fn all_classified(
    model: GitModel,
    listed: Seq<InventoryWorktreeView>,
    inspected: Seq<WorktreeInspectionView>,
) -> bool {
    forall|i: int|
        0 <= i < inspected.len() ==> {
            &&& (#[trigger] inspected[i]).path == listed[i].path
            &&& inspected[i].head == listed[i].head
            &&& inspected[i].branch == listed[i].branch
            &&& is_classified(model, listed[i], i == 0, inspected[i].classification)
        }
}

/// The whole inspection.
spec fn inspecting(repository: Seq<u8>, timeout: u64) -> spec_fn(Seq<ReplyView>) -> Flow<
    RepositoryInspectionView,
> {
    |replies: Seq<ReplyView>| inspection::inspect_flow(repository, timeout, replies, 0)
}

/// The rest of an inspection, from a worktree on.
spec fn inspecting_from(
    repository: Seq<u8>,
    timeout: u64,
    worktrees: Seq<InventoryWorktreeView>,
    done: Seq<WorktreeInspectionView>,
    replies: Seq<ReplyView>,
    at: int,
) -> Flow<RepositoryInspectionView> {
    inspection::classify_all_flow(
        repository,
        timeout,
        worktrees,
        done.len() as int,
        done,
        None,
        replies,
        at,
    )
}

/// Whether the replies so far have brought an inspection up to a worktree.
spec fn has_come_to(
    repository: Seq<u8>,
    timeout: u64,
    worktrees: Seq<InventoryWorktreeView>,
    done: Seq<WorktreeInspectionView>,
    replies: Seq<ReplyView>,
) -> bool {
    forall|longer: Seq<ReplyView>|
        replies.is_prefix_of(longer) ==> #[trigger] inspecting(repository, timeout)(longer)
            == inspecting_from(repository, timeout, worktrees, done, longer, replies.len() as int)
}

/// The replies that one worktree takes are got one by one.
proof fn lemma_worktree_asks(
    world: spec_fn(RequestView) -> ReplyView,
    repository: Seq<u8>,
    model: GitModel,
    timeout: u64,
    worktrees: Seq<InventoryWorktreeView>,
    done: Seq<WorktreeInspectionView>,
    replies: Seq<ReplyView>,
    k: nat,
    more: nat,
)
    requires
        tells_branches(world, repository, model),
        done.len() < worktrees.len(),
        ({
            let worktree = worktrees[done.len() as int];
            let count = requests_of(model, worktree, done.len() == 0);
            &&& worktree.detached || worktree.branch is Some
            &&& k <= count <= k + more
        }),
        has_come_to(repository, timeout, worktrees, done, replies),
    ensures
        ({
            let worktree = worktrees[done.len() as int];
            let count = requests_of(model, worktree, done.len() == 0);
            let told = branch_replies(world, repository, worktree.branch->0, timeout, model);
            flow::answered(
                inspecting(repository, timeout),
                world,
                replies + told.take(k as int),
                more,
            ) == flow::answered(
                inspecting(repository, timeout),
                world,
                replies + told.take(count as int),
                (more + k - count) as nat,
            )
        }),
    decreases more,
{
    let worktree = worktrees[done.len() as int];
    let first = done.len() == 0;
    let count = requests_of(model, worktree, first);
    let told = branch_replies(world, repository, worktree.branch->0, timeout, model);
    if k < count {
        let now = replies + told.take(k as int);
        let at = replies.len() as int;
        assert(replies.is_prefix_of(now));
        assert(inspecting(repository, timeout)(now) == inspecting_from(
            repository,
            timeout,
            worktrees,
            done,
            now,
            at,
        ));
        assert forall|j: int| 0 <= j < count && at + j < now.len() implies #[trigger] now[at + j]
            == told[j] by {}
        lemma_classified(world, repository, model, worktree, first, timeout, now, at);
        let request = inspection::classify_flow(
            repository,
            worktree,
            first,
            timeout,
            now,
            at,
        )->Ask_0;
        assert(inspecting(repository, timeout)(now) == Flow::<RepositoryInspectionView>::Ask(
            request,
        ));
        assert(now.push(world(request)) =~= replies + told.take(k as int + 1));
        flow::lemma_answered_asks(inspecting(repository, timeout), world, now, more, request);
        lemma_worktree_asks(
            world,
            repository,
            model,
            timeout,
            worktrees,
            done,
            replies,
            k + 1,
            (more - 1) as nat,
        );
    }
}

proof fn lemma_worktrees_answered(
    world: spec_fn(RequestView) -> ReplyView,
    repository: Seq<u8>,
    model: GitModel,
    timeout: u64,
    worktrees: Seq<InventoryWorktreeView>,
    done: Seq<WorktreeInspectionView>,
    replies: Seq<ReplyView>,
    more: nat,
)
    requires
        tells_branches(world, repository, model),
        forall|i: int|
            0 <= i < worktrees.len() ==> (#[trigger] worktrees[i]).detached || worktrees[i].branch
                is Some,
        done.len() <= worktrees.len(),
        all_classified(model, worktrees, done),
        has_come_to(repository, timeout, worktrees, done, replies),
        more >= 3 * (worktrees.len() - done.len()),
    ensures
        flow::answered(inspecting(repository, timeout), world, replies, more) matches Some(result)
            && result.outcome is Inspected && result.message is None && result.worktrees.len()
            == worktrees.len() && all_classified(model, worktrees, result.worktrees),
    decreases worktrees.len() - done.len(),
{
    let at = replies.len() as int;
    assert(inspecting(repository, timeout)(replies) == inspecting_from(
        repository,
        timeout,
        worktrees,
        done,
        replies,
        at,
    ));
    if done.len() < worktrees.len() {
        let worktree = worktrees[done.len() as int];
        let first = done.len() == 0;
        let count = requests_of(model, worktree, first);
        let told = branch_replies(world, repository, worktree.branch->0, timeout, model);
        assert(replies + told.take(0) =~= replies);
        lemma_worktree_asks(
            world,
            repository,
            model,
            timeout,
            worktrees,
            done,
            replies,
            0,
            more,
        );
        let now = replies + told.take(count as int);
        assert forall|j: int| 0 <= j < count && at + j < now.len() implies #[trigger] now[at + j]
            == told[j] by {}
        lemma_classified(world, repository, model, worktree, first, timeout, now, at);
        let found = inspection::classify_flow(
            repository,
            worktree,
            first,
            timeout,
            now,
            at,
        )->Done_0;
        let after = done.push(inspection::inspected(worktree, found.classification));
        assert forall|longer: Seq<ReplyView>| now.is_prefix_of(longer) implies #[trigger] inspecting(
            repository,
            timeout,
        )(longer) == inspecting_from(
            repository,
            timeout,
            worktrees,
            after,
            longer,
            now.len() as int,
        ) by {
            assert(replies.is_prefix_of(longer)) by {
                assert forall|j: int| 0 <= j < replies.len() implies replies[j]
                    == #[trigger] longer[j] by {
                    assert(now[j] == longer[j]);
                }
                assert(replies =~= longer.take(at));
            }
            assert forall|j: int| 0 <= j < count && at + j < longer.len() implies
                #[trigger] longer[at + j] == told[j] by {
                assert(now[at + j] == longer[at + j]);
            }
            lemma_classified(world, repository, model, worktree, first, timeout, longer, at);
            lemma_one_classification(
                model,
                worktree,
                first,
                found.classification,
                inspection::classify_flow(
                    repository,
                    worktree,
                    first,
                    timeout,
                    longer,
                    at,
                )->Done_0.classification,
            );
        }
        assert(has_come_to(repository, timeout, worktrees, after, now));
        assert(all_classified(model, worktrees, after));
        lemma_worktrees_answered(
            world,
            repository,
            model,
            timeout,
            worktrees,
            after,
            now,
            (more - count) as nat,
        );
    }
}

/// A worktree is one thing only.
proof fn lemma_one_classification(
    model: GitModel,
    worktree: InventoryWorktreeView,
    first: bool,
    left: WorktreeClassification,
    right: WorktreeClassification,
)
    requires
        worktree.detached || worktree.branch is Some,
        is_classified(model, worktree, first, left),
        is_classified(model, worktree, first, right),
    ensures
        left == right,
{
}

/// The inspection of a repository that Git tells truly about fetches it, lists its worktrees, and
/// classifies each of them, in order, as it is.
pub proof fn law_inspections_classify_every_worktree(
    world: spec_fn(RequestView) -> ReplyView,
    repository: Seq<u8>,
    model: GitModel,
    list: Seq<u8>,
    worktrees: Seq<InventoryWorktreeView>,
    timeout: u64,
)
    requires
        fetches_and_lists(world, repository, list),
        tells_branches(world, repository, model),
        inspection::porcelain_worktrees(list) == Ok::<Seq<InventoryWorktreeView>, Seq<char>>(
            worktrees,
        ),
        forall|i: int|
            0 <= i < worktrees.len() ==> (#[trigger] worktrees[i]).detached || worktrees[i].branch
                is Some,
    ensures
        flow::answered(
            |replies: Seq<ReplyView>| inspection::inspect_flow(repository, timeout, replies, 0),
            world,
            Seq::empty(),
            2 + 3 * worktrees.len(),
        ) matches Some(result) && result.outcome is Inspected && result.message is None
            && result.worktrees.len() == worktrees.len() && all_classified(
            model,
            worktrees,
            result.worktrees,
        ),
{
    let work = inspecting(repository, timeout);
    let fetch = inspection::fetch_command(repository, timeout);
    let lists = inspection::list_command(repository, timeout);
    lemma_git(fetch, repository);
    lemma_git(lists, repository);
    assert(fetch.environment[1] == ("GIT_TERMINAL_PROMPT"@, "0"@));
    let none = Seq::<ReplyView>::empty();
    let more = (2 + 3 * worktrees.len()) as nat;
    let fetched = none.push(world(RequestView::Run(fetch)));
    let listed = fetched.push(world(RequestView::Run(lists)));
    assert(work(none) == Flow::<RepositoryInspectionView>::Ask(RequestView::Run(fetch)));
    flow::lemma_answered_asks(work, world, none, more, RequestView::Run(fetch));
    assert(work(fetched) == Flow::<RepositoryInspectionView>::Ask(RequestView::Run(lists)));
    flow::lemma_answered_asks(work, world, fetched, (more - 1) as nat, RequestView::Run(lists));
    assert(exits(world(RequestView::Run(fetch)), 0));
    let done = Seq::<WorktreeInspectionView>::empty();
    assert forall|longer: Seq<ReplyView>| listed.is_prefix_of(longer) implies #[trigger] inspecting(
        repository,
        timeout,
    )(longer) == inspecting_from(repository, timeout, worktrees, done, longer, 2) by {
        assert(longer[0] == listed[0]);
        assert(longer[1] == listed[1]);
    }
    lemma_worktrees_answered(
        world,
        repository,
        model,
        timeout,
        worktrees,
        done,
        listed,
        (more - 2) as nat,
    );
}

} // verus!
