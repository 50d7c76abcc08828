//! What a search finds in a file system in which every read succeeds.
use crate::command;
use crate::command::{CommandLineView, CommandResultView, PathFailureView};
use crate::command::{ReplyView, RequestView};
use crate::discovery;
use crate::discovery::world;
use crate::discovery::{DirectoryEntryView, EntryKindView, PendingDirectoryView, RepositoryView};
use crate::discovery::{DiscoveryIssueKind, DiscoveryIssueView, VisitView, WalkView};
use crate::filepath;
use crate::flow::Flow;
use crate::inspection::model::{exits, lemma_printed_name, plain, prints, runs_git};
use crate::text;
use vstd::prelude::*;
use vstd::utf8::*;

verus! {

/// What a directory lists, in a world.
pub open spec fn listed(world: spec_fn(RequestView) -> ReplyView, path: Seq<u8>) -> Result<
    Seq<DirectoryEntryView>,
    Seq<char>,
> {
    discovery::directory_entries(world(RequestView::ListDirectory(path)))
}

/// Whether a name of a directory is one to go into: that of a directory, not of a symbolic link or
/// of anything else, and not one that is ignored.
pub open spec fn leads_on(
    world: spec_fn(RequestView) -> ReplyView,
    path: Seq<u8>,
    name: Seq<u8>,
) -> bool {
    listed(world, path) matches Ok(entries) && entries.contains(
        DirectoryEntryView { name, kind: EntryKindView::Directory },
    ) && !passed_over(name)
}

/// The names of directories in which no repository is looked for.
pub open spec fn passed_names() -> Seq<Seq<char>> {
    seq![
        ".git"@,
        ".worktrees"@,
        ".venv"@,
        "node_modules"@,
        "target"@,
        "build"@,
        "dist"@,
        "out"@,
        "coverage"@,
    ]
}

/// Whether a name is one of those in which no repository is looked for.
pub open spec fn passed_over(name: Seq<u8>) -> bool {
    exists|i: int| 0 <= i < passed_names().len() && name == encode_utf8(#[trigger] passed_names()[i])
}

/// A directory is passed over exactly when it has one of the nine names `.git`, `.worktrees`,
/// `.venv`, `node_modules`, `target`, `build`, `dist`, `out` and `coverage`.
pub proof fn law_nine_names_are_passed_over(name: Seq<u8>)
    ensures
        discovery::ignored(name) <==> passed_over(name),
        passed_over(name) <==> name == encode_utf8(".git"@) || name == encode_utf8(".worktrees"@)
            || name == encode_utf8(".venv"@) || name == encode_utf8("node_modules"@) || name
            == encode_utf8("target"@) || name == encode_utf8("build"@) || name == encode_utf8(
            "dist"@,
        ) || name == encode_utf8("out"@) || name == encode_utf8("coverage"@),
{
    let names = passed_names();
    assert(names[0] == ".git"@ && names[1] == ".worktrees"@ && names[2] == ".venv"@);
    assert(names[3] == "node_modules"@ && names[4] == "target"@ && names[5] == "build"@);
    assert(names[6] == "dist"@ && names[7] == "out"@ && names[8] == "coverage"@);
    if passed_over(name) {
        let i = choose|i: int| 0 <= i < names.len() && name == encode_utf8(#[trigger] names[i]);
        assert(i == 0 || i == 1 || i == 2 || i == 3 || i == 4 || i == 5 || i == 6 || i == 7 || i
            == 8);
    }
}

/// The path that names lead to from the top, one below the other.
pub open spec fn place(top: Seq<u8>, names: Seq<Seq<u8>>) -> Seq<u8>
    decreases names.len(),
{
    if names.len() == 0 {
        top
    } else {
        filepath::joined(place(top, names.drop_last()), names.last())
    }
}

/// Whether names lead from directory to directory below the top.
pub open spec fn lies_below(
    world: spec_fn(RequestView) -> ReplyView,
    top: Seq<u8>,
    names: Seq<Seq<u8>>,
) -> bool
    decreases names.len(),
{
    names.len() == 0 || (lies_below(world, top, names.drop_last()) && leads_on(
        world,
        place(top, names.drop_last()),
        names.last(),
    ))
}

/// The repository that a directory is: it has a directory `.git` that Git resolves.
pub open spec fn repository_at(
    world: spec_fn(RequestView) -> ReplyView,
    path: Seq<u8>,
) -> Option<RepositoryView> {
    let git_path = filepath::joined(path, encode_utf8(".git"@));
    match listed(world, path) {
        Err(_) => None,
        Ok(entries) => if !discovery::has_git(entries) || discovery::directory_found(
            world(RequestView::IsDirectory(git_path)),
        ) != Ok::<bool, Seq<char>>(true) {
            None
        } else {
            match discovery::printed_directory(
                command::command_result(
                    world(RequestView::Run(discovery::common_command(path))),
                ),
            ) {
                Err(_) => None,
                Ok(printed) => match world::canonical(world, printed) {
                    Err(_) => None,
                    Ok(git_common_directory) => Some(RepositoryView { path, git_common_directory }),
                },
            }
        },
    }
}

/// Whether a name is that of an entry: it is not empty, is not the directory itself, and has no
/// separator in it.
pub open spec fn plain_name(name: Seq<u8>) -> bool {
    name.len() > 0 && name != seq![filepath::DOT] && !name.contains(filepath::SEPARATOR)
}

/// Whether a directory can be read: its path is canonical, and it lists names.
pub open spec fn readable(world: spec_fn(RequestView) -> ReplyView, path: Seq<u8>) -> bool {
    &&& world::canonical(world, path) matches Ok(canonical) && canonical == path
    &&& listed(world, path) matches Ok(entries) && forall|i: int|
        0 <= i < entries.len() ==> plain_name((#[trigger] entries[i]).name)
}

/// Whether every directory can be read that lies at most `depth` levels below the top.
pub open spec fn all_readable(
    world: spec_fn(RequestView) -> ReplyView,
    top: Seq<u8>,
    depth: u32,
) -> bool {
    forall|names: Seq<Seq<u8>>|
        names.len() <= depth && #[trigger] lies_below(world, top, names) ==> readable(
            world,
            place(top, names),
        )
}

/// Whether a repository is one of those that a search is for: it is a directory that lies at most
/// `depth` levels below one of the roots, and names lead to it from directory to directory.
pub open spec fn belongs_below(
    world: spec_fn(RequestView) -> ReplyView,
    roots: Seq<Seq<u8>>,
    depth: u32,
    repository: RepositoryView,
) -> bool {
    exists|root: Seq<u8>, names: Seq<Seq<u8>>|
        #![trigger roots.contains(root), lies_below(world, world::canonical(world, root)->Ok_0, names)]
        roots.contains(root) && world::canonical(world, root) is Ok && names.len() <= depth
            && lies_below(world, world::canonical(world, root)->Ok_0, names) && repository_at(
            world,
            place(world::canonical(world, root)->Ok_0, names),
        ) == Some(repository)
}

proof fn lemma_split_name(left: Seq<u8>, name: Seq<u8>)
    requires
        !name.contains(filepath::SEPARATOR),
    ensures
        ({
            let before = text::split_bytes(left, filepath::SEPARATOR, filepath::SEPARATOR);
            before.len() > 0 && text::split_bytes(
                left + name,
                filepath::SEPARATOR,
                filepath::SEPARATOR,
            ) == before.drop_last().push(before.last() + name)
        }),
    decreases name.len(),
{
    let before = text::split_bytes(left, filepath::SEPARATOR, filepath::SEPARATOR);
    lemma_split_some(left);
    if name.len() == 0 {
        assert(left + name =~= left);
        assert(before.last() + name =~= before.last());
        assert(before.drop_last().push(before.last()) =~= before);
    } else {
        let shorter = name.drop_last();
        assert(!shorter.contains(filepath::SEPARATOR)) by {
            if shorter.contains(filepath::SEPARATOR) {
                let i = choose|i: int| 0 <= i < shorter.len() && shorter[i] == filepath::SEPARATOR;
                assert(name[i] == filepath::SEPARATOR);
            }
        }
        lemma_split_name(left, shorter);
        assert(name.last() != filepath::SEPARATOR) by {
            assert(name[name.len() - 1] == name.last());
        }
        assert((left + name).drop_last() =~= left + shorter);
        assert((left + name).last() == name.last());
        assert((before.last() + shorter).push(name.last()) =~= before.last() + name);
        assert(before.drop_last().push(before.last() + shorter).drop_last()
            =~= before.drop_last());
    }
}

proof fn lemma_split_some(bytes: Seq<u8>)
    ensures
        text::split_bytes(bytes, filepath::SEPARATOR, filepath::SEPARATOR).len() > 0,
    decreases bytes.len(),
{
    if bytes.len() > 0 {
        lemma_split_some(bytes.drop_last());
    }
}

/// The components of an entry are those of its directory, and its name.
proof fn lemma_entry_components(path: Seq<u8>, name: Seq<u8>)
    requires
        plain_name(name),
    ensures
        filepath::components(filepath::joined(path, name)) == filepath::components(path).push(name),
{
    let separator = filepath::SEPARATOR;
    assert(name[0] != separator) by {
        if name[0] == separator {
            assert(name.contains(separator));
        }
    }
    let whole = filepath::joined(path, name);
    let pieces = text::split_bytes(path, separator, separator);
    let relative = !filepath::absolute(path);
    lemma_split_some(path);
    if path.len() == 0 {
        lemma_split_name(Seq::empty(), name);
        assert(Seq::<u8>::empty() + name =~= name);
        assert(pieces.last() + name =~= name);
        assert(text::split_bytes(name, separator, separator) =~= seq![name]);
        assert(pieces.drop_last() =~= Seq::empty());
        assert(seq![name].drop_last() =~= Seq::empty());
        reveal_with_fuel(filepath::significant, 3);
        assert(filepath::components(path) =~= Seq::empty());
        assert(filepath::components(whole) =~= seq![name]);
    } else {
        if path.last() == separator {
            let inner = text::split_bytes(path.drop_last(), separator, separator);
            assert(pieces == inner.push(Seq::empty()));
            lemma_split_name(path, name);
            assert(pieces.drop_last() =~= inner);
            assert(pieces.last() + name =~= name);
            assert(whole == path + name);
            assert(text::split_bytes(whole, separator, separator) == inner.push(name));
            assert(inner.push(name).drop_last() =~= inner);
            assert(filepath::significant(pieces, relative) == filepath::significant(
                inner,
                relative,
            ));
            assert(filepath::significant(inner.push(name), relative) == filepath::significant(
                inner,
                relative,
            ).push(name));
        } else {
            let longer = path.push(separator);
            lemma_split_name(longer, name);
            assert(longer.drop_last() =~= path);
            assert(text::split_bytes(longer, separator, separator) == pieces.push(Seq::empty()));
            assert(pieces.push(Seq::<u8>::empty()).drop_last() =~= pieces);
            assert(Seq::<u8>::empty() + name =~= name);
            assert(text::split_bytes(whole, separator, separator) == pieces.push(name));
            assert(pieces.push(name).drop_last() =~= pieces);
            assert(filepath::significant(pieces.push(name), relative) == filepath::significant(
                pieces,
                relative,
            ).push(name));
        }
        assert(filepath::absolute(whole) == filepath::absolute(path));
        assert(filepath::components(whole) =~= filepath::components(path).push(name));
    }
}

proof fn lemma_place_within(
    world: spec_fn(RequestView) -> ReplyView,
    top: Seq<u8>,
    depth: u32,
    names: Seq<Seq<u8>>,
)
    requires
        all_readable(world, top, depth),
        names.len() <= depth + 1,
        lies_below(world, top, names),
    ensures
        filepath::path_within(place(top, names), top),
    decreases names.len(),
{
    if names.len() > 0 {
        let shorter = names.drop_last();
        lemma_place_within(world, top, depth, shorter);
        let path = place(top, shorter);
        assert(lies_below(world, top, shorter));
        assert(readable(world, path));
        let entries = listed(world, path)->Ok_0;
        let entry = DirectoryEntryView { name: names.last(), kind: EntryKindView::Directory };
        let i = choose|i: int| 0 <= i < entries.len() && entries[i] == entry;
        assert(plain_name(entries[i].name));
        lemma_entry_components(path, names.last());
    }
}

proof fn lemma_insert_contains<T>(items: Seq<T>, item: T, before: spec_fn(T, T) -> bool, other: T)
    ensures
        discovery::insert_by(items, item, before).contains(other) <==> items.contains(other)
            || other == item,
    decreases items.len(),
{
    if items.len() > 0 && before(item, items.last()) {
        let shorter = items.drop_last();
        lemma_insert_contains(shorter, item, before, other);
        lemma_push_contains(discovery::insert_by(shorter, item, before), items.last(), other);
        lemma_push_contains(shorter, items.last(), other);
        assert(shorter.push(items.last()) =~= items);
    } else {
        lemma_push_contains(items, item, other);
    }
}

proof fn lemma_push_contains<T>(items: Seq<T>, item: T, other: T)
    ensures
        items.push(item).contains(other) <==> items.contains(other) || other == item,
{
    let longer = items.push(item);
    if items.contains(other) {
        let i = choose|i: int| 0 <= i < items.len() && items[i] == other;
        assert(longer[i] == other);
    }
    if other == item {
        assert(longer[items.len() as int] == other);
    }
    if longer.contains(other) {
        let i = choose|i: int| 0 <= i < longer.len() && longer[i] == other;
        if i < items.len() {
            assert(items[i] == other);
        }
    }
}

proof fn lemma_sort_contains<T>(items: Seq<T>, before: spec_fn(T, T) -> bool, other: T)
    ensures
        discovery::sort_by(items, before).contains(other) <==> items.contains(other),
    decreases items.len(),
{
    if items.len() > 0 {
        let shorter = items.drop_last();
        lemma_sort_contains(shorter, before, other);
        lemma_insert_contains(discovery::sort_by(shorter, before), items.last(), before, other);
        lemma_push_contains(shorter, items.last(), other);
        assert(shorter.push(items.last()) =~= items);
    }
}

/// Whether a name is that of a directory among the entries which is gone into.
spec fn is_child(entries: Seq<DirectoryEntryView>, name: Seq<u8>) -> bool {
    entries.contains(DirectoryEntryView { name, kind: EntryKindView::Directory })
        && !discovery::ignored(name)
}

/// Whether a path is that of one of the directories among the entries that are gone into.
spec fn comes_of(path: Seq<u8>, entries: Seq<DirectoryEntryView>, child: Seq<u8>) -> bool {
    exists|name: Seq<u8>| #[trigger]
        is_child(entries, name) && child == filepath::joined(path, name)
}

proof fn lemma_children(path: Seq<u8>, entries: Seq<DirectoryEntryView>)
    ensures
        forall|k: int|
            0 <= k < discovery::child_directories(path, entries).len() ==> comes_of(
                path,
                entries,
                #[trigger] discovery::child_directories(path, entries)[k],
            ),
        forall|name: Seq<u8>| #[trigger]
            is_child(entries, name) ==> discovery::child_directories(path, entries).contains(
                filepath::joined(path, name),
            ),
    decreases entries.len(),
{
    let children = discovery::child_directories(path, entries);
    if entries.len() > 0 {
        let shorter = entries.drop_last();
        let last = entries.last();
        let before = discovery::child_directories(path, shorter);
        lemma_children(path, shorter);
        assert(shorter.push(last) =~= entries);
        assert forall|k: int| 0 <= k < children.len() implies comes_of(
            path,
            entries,
            #[trigger] children[k],
        ) by {
            if k < before.len() {
                assert(children[k] == before[k]);
                assert(comes_of(path, shorter, before[k]));
                let name = choose|name: Seq<u8>| #[trigger]
                    is_child(shorter, name) && before[k] == filepath::joined(path, name);
                lemma_push_contains(
                    shorter,
                    last,
                    DirectoryEntryView { name, kind: EntryKindView::Directory },
                );
                assert(is_child(entries, name));
            } else {
                assert(entries[entries.len() - 1] == last);
                assert(entries.contains(last));
                assert(last == (DirectoryEntryView {
                    name: last.name,
                    kind: EntryKindView::Directory,
                }));
                assert(is_child(entries, last.name));
            }
        }
        assert forall|name: Seq<u8>| #[trigger]
            is_child(entries, name) implies children.contains(
            filepath::joined(path, name),
        ) by {
            let child = DirectoryEntryView { name, kind: EntryKindView::Directory };
            lemma_push_contains(shorter, last, child);
            if shorter.contains(child) {
                assert(is_child(shorter, name));
                if children != before {
                    lemma_push_contains(
                        before,
                        filepath::joined(path, last.name),
                        filepath::joined(path, name),
                    );
                }
            } else {
                lemma_push_contains(
                    before,
                    filepath::joined(path, last.name),
                    filepath::joined(path, name),
                );
            }
        }
    }
}

/// The directory that a walk is at.
spec fn current(walk: WalkView) -> PendingDirectoryView {
    walk.pending[walk.next as int]
}

/// The visit that a walk is at, with the given replies.
#[verifier::opaque]
spec fn visit_piece(walk: WalkView, scan_depth: u32, replies: Seq<ReplyView>) -> Flow<VisitView> {
    discovery::visit_flow(
        walk.root,
        current(walk).path,
        current(walk).depth,
        scan_depth,
        walk.visited,
        replies,
        0,
    )
}

/// Whether replies are the first ones that a world gives to a visit of a directory.
spec fn told_first(
    world: spec_fn(RequestView) -> ReplyView,
    path: Seq<u8>,
    replies: Seq<ReplyView>,
) -> bool {
    let git_path = filepath::joined(path, encode_utf8(".git"@));
    &&& replies.len() > 0 ==> replies[0] == world(RequestView::Canonicalize(path))
    &&& replies.len() > 1 ==> replies[1] == world(RequestView::ListDirectory(path))
    &&& replies.len() > 2 ==> replies[2] == world(RequestView::IsDirectory(git_path))
    &&& replies.len() > 3 ==> replies[3] == world(
        RequestView::Run(discovery::common_command(path)),
    )
    &&& replies.len() > 4 ==> (discovery::printed_directory(command::command_result(replies[3]))
        matches Ok(printed) && replies[4] == world(RequestView::Canonicalize(printed)))
}

/// Whether a visit of a directory that can be read comes out as it should: nothing comes of a
/// directory that was visited before; of another one come the repository that it is, and the
/// directories in it to go into, down to the depth of the search.
spec fn comes_out(
    world: spec_fn(RequestView) -> ReplyView,
    walk: WalkView,
    scan_depth: u32,
    visit: VisitView,
) -> bool {
    let path = current(walk).path;
    if walk.visited.contains(filepath::components(path)) {
        visit.visited is None && visit.repository is None && visit.children.len() == 0
    } else {
        &&& visit.visited == Some(path)
        &&& visit.repository == repository_at(world, path)
        &&& visit.children == if current(walk).depth >= scan_depth {
            Seq::empty()
        } else {
            discovery::child_directories(
                path,
                discovery::sort_by(listed(world, path)->Ok_0, discovery::entry_order()),
            )
        }
    }
}

proof fn lemma_sorted_git(entries: Seq<DirectoryEntryView>)
    ensures
        discovery::has_git(discovery::sort_by(entries, discovery::entry_order()))
            == discovery::has_git(entries),
{
    let sorted = discovery::sort_by(entries, discovery::entry_order());
    let name = encode_utf8(".git"@);
    if discovery::has_git(entries) {
        let i = choose|i: int| 0 <= i < entries.len() && (#[trigger] entries[i]).name == name;
        lemma_sort_contains(entries, discovery::entry_order(), entries[i]);
        assert(entries.contains(entries[i]));
        let k = choose|k: int| 0 <= k < sorted.len() && sorted[k] == entries[i];
        assert(sorted[k].name == name);
    }
    if discovery::has_git(sorted) {
        let k = choose|k: int| 0 <= k < sorted.len() && (#[trigger] sorted[k]).name == name;
        lemma_sort_contains(entries, discovery::entry_order(), sorted[k]);
        assert(sorted.contains(sorted[k]));
        let i = choose|i: int| 0 <= i < entries.len() && entries[i] == sorted[k];
        assert(entries[i].name == name);
    }
}

proof fn lemma_visit_piece(
    world: spec_fn(RequestView) -> ReplyView,
    walk: WalkView,
    scan_depth: u32,
    replies: Seq<ReplyView>,
)
    requires
        readable(world, current(walk).path),
        filepath::path_within(current(walk).path, walk.root),
        told_first(world, current(walk).path, replies),
    ensures
        visit_piece(walk, scan_depth, replies) matches Flow::Ask(request) ==> told_first(
            world,
            current(walk).path,
            replies.push(world(request)),
        ),
        visit_piece(walk, scan_depth, replies) matches Flow::Done(visit, _) ==> comes_out(
            world,
            walk,
            scan_depth,
            visit,
        ),
{
    reveal(visit_piece);
    lemma_sorted_git(listed(world, current(walk).path)->Ok_0);
}

proof fn lemma_driven_out(
    world: spec_fn(RequestView) -> ReplyView,
    walk: WalkView,
    scan_depth: u32,
    replies: Seq<ReplyView>,
    more: nat,
)
    requires
        readable(world, current(walk).path),
        filepath::path_within(current(walk).path, walk.root),
        told_first(world, current(walk).path, replies),
    ensures
        world::driven(world, walk, scan_depth, replies, more) matches Some(visit) ==> comes_out(
            world,
            walk,
            scan_depth,
            visit,
        ),
    decreases more,
{
    lemma_visit_piece(world, walk, scan_depth, replies);
    reveal(visit_piece);
    if let Flow::Ask(request) = visit_piece(walk, scan_depth, replies) {
        if more > 0 {
            lemma_driven_out(
                world,
                walk,
                scan_depth,
                replies.push(world(request)),
                (more - 1) as nat,
            );
        }
    }
}

proof fn lemma_visit_out(
    world: spec_fn(RequestView) -> ReplyView,
    walk: WalkView,
    scan_depth: u32,
)
    requires
        readable(world, current(walk).path),
        filepath::path_within(current(walk).path, walk.root),
    ensures
        comes_out(world, walk, scan_depth, world::visit_in(world, walk, scan_depth)),
{
    world::lemma_driven(world, walk, scan_depth, Seq::empty(), 5);
    lemma_driven_out(world, walk, scan_depth, Seq::empty(), 5);
}

/// Whether a path lies a number of levels below the top.
spec fn reached(
    world: spec_fn(RequestView) -> ReplyView,
    top: Seq<u8>,
    path: Seq<u8>,
    depth: int,
) -> bool {
    exists|names: Seq<Seq<u8>>| #[trigger]
        lies_below(world, top, names) && names.len() == depth && place(top, names) == path
}

/// Whether a path is pending, at most at a depth.
spec fn is_pending(pending: Seq<PendingDirectoryView>, path: Seq<u8>, depth: int) -> bool {
    exists|j: int|
        0 <= j < pending.len() && (#[trigger] pending[j]).path == path && pending[j].depth <= depth
}

/// Whether a directory was found to be a repository in one of the first `n` visits.
spec fn was_found(
    world: spec_fn(RequestView) -> ReplyView,
    top: Seq<u8>,
    scan_depth: u32,
    n: nat,
    repository: RepositoryView,
) -> bool {
    exists|k: nat|
        k < n && #[trigger] world::found_at(world, top, scan_depth, k) == Some(repository)
}

/// Whether components are those of a directory that a walk has come by.
spec fn came_by(walk: WalkView, components: Seq<Seq<u8>>) -> bool {
    exists|i: int|
        0 <= i < walk.next && filepath::components((#[trigger] walk.pending[i]).path) == components
}

/// Whether a walk has only come to directories below the top, the nearer ones first.
spec fn keeps_below(
    world: spec_fn(RequestView) -> ReplyView,
    top: Seq<u8>,
    scan_depth: u32,
    walk: WalkView,
) -> bool {
    &&& walk.root == top
    &&& walk.next <= walk.pending.len()
    &&& forall|i: int|
        0 <= i < walk.pending.len() ==> (#[trigger] walk.pending[i]).depth <= scan_depth && reached(
            world,
            top,
            walk.pending[i].path,
            walk.pending[i].depth as int,
        )
    &&& forall|i: int, j: int|
        0 <= i < j < walk.pending.len() ==> (#[trigger] walk.pending[i]).depth <= (
        #[trigger] walk.pending[j]).depth
    &&& walk.next < walk.pending.len() ==> forall|j: int|
        0 <= j < walk.pending.len() ==> (#[trigger] walk.pending[j]).depth <= current(walk).depth
            + 1
}

/// Whether a walk has missed nothing in the directories that it has come by.
spec fn misses_nothing(
    world: spec_fn(RequestView) -> ReplyView,
    top: Seq<u8>,
    scan_depth: u32,
    walk: WalkView,
    n: nat,
) -> bool {
    &&& forall|k: int| 0 <= k < walk.visited.len() ==> came_by(walk, #[trigger] walk.visited[k])
    &&& forall|i: int, name: Seq<u8>|
        0 <= i < walk.next && walk.pending[i].depth < scan_depth && #[trigger] leads_on(
            world,
            walk.pending[i].path,
            name,
        ) ==> is_pending(
            walk.pending,
            filepath::joined(walk.pending[i].path, name),
            walk.pending[i].depth + 1,
        )
    &&& forall|i: int|
        0 <= i < walk.next ==> (repository_at(world, (#[trigger] walk.pending[i]).path) matches Some(
            repository,
        ) ==> was_found(world, top, scan_depth, n, repository))
}

proof fn lemma_reached_readable(
    world: spec_fn(RequestView) -> ReplyView,
    top: Seq<u8>,
    scan_depth: u32,
    path: Seq<u8>,
    depth: int,
)
    requires
        all_readable(world, top, scan_depth),
        reached(world, top, path, depth),
        depth <= scan_depth,
    ensures
        readable(world, path),
        filepath::path_within(path, top),
{
    let names = choose|names: Seq<Seq<u8>>| #[trigger]
        lies_below(world, top, names) && names.len() == depth && place(top, names) == path;
    lemma_place_within(world, top, scan_depth, names);
}

proof fn lemma_child_reached(
    world: spec_fn(RequestView) -> ReplyView,
    top: Seq<u8>,
    path: Seq<u8>,
    depth: int,
    name: Seq<u8>,
)
    requires
        reached(world, top, path, depth),
        leads_on(world, path, name),
    ensures
        reached(world, top, filepath::joined(path, name), depth + 1),
{
    let names = choose|names: Seq<Seq<u8>>| #[trigger]
        lies_below(world, top, names) && names.len() == depth && place(top, names) == path;
    let longer = names.push(name);
    assert(longer.drop_last() =~= names);
    assert(lies_below(world, top, longer));
    assert(place(top, longer) == filepath::joined(path, name));
}

/// Whether a name of a directory leads to a path.
spec fn led_to(
    world: spec_fn(RequestView) -> ReplyView,
    path: Seq<u8>,
    child: Seq<u8>,
) -> bool {
    exists|name: Seq<u8>| #[trigger]
        leads_on(world, path, name) && child == filepath::joined(path, name)
}

proof fn lemma_listed_children(world: spec_fn(RequestView) -> ReplyView, path: Seq<u8>)
    requires
        listed(world, path) is Ok,
    ensures
        ({
            let children = discovery::child_directories(
                path,
                discovery::sort_by(listed(world, path)->Ok_0, discovery::entry_order()),
            );
            &&& forall|k: int|
                0 <= k < children.len() ==> led_to(world, path, #[trigger] children[k])
            &&& forall|name: Seq<u8>| #[trigger]
                leads_on(world, path, name) ==> children.contains(filepath::joined(path, name))
        }),
{
    let entries = listed(world, path)->Ok_0;
    let sorted = discovery::sort_by(entries, discovery::entry_order());
    let children = discovery::child_directories(path, sorted);
    lemma_children(path, sorted);
    assert forall|k: int| 0 <= k < children.len() implies led_to(
        world,
        path,
        #[trigger] children[k],
    ) by {
        assert(comes_of(path, sorted, children[k]));
        let name = choose|name: Seq<u8>| #[trigger]
            is_child(sorted, name) && children[k] == filepath::joined(path, name);
        law_nine_names_are_passed_over(name);
        lemma_sort_contains(
            entries,
            discovery::entry_order(),
            DirectoryEntryView { name, kind: EntryKindView::Directory },
        );
        assert(leads_on(world, path, name));
    }
    assert forall|name: Seq<u8>| #[trigger] leads_on(world, path, name) implies children.contains(
        filepath::joined(path, name),
    ) by {
        lemma_sort_contains(
            entries,
            discovery::entry_order(),
            DirectoryEntryView { name, kind: EntryKindView::Directory },
        );
        law_nine_names_are_passed_over(name);
        assert(is_child(sorted, name));
    }
}

/// A walk that goes on keeps below the top.
proof fn lemma_step_keeps_below(
    world: spec_fn(RequestView) -> ReplyView,
    top: Seq<u8>,
    scan_depth: u32,
    walk: WalkView,
)
    requires
        all_readable(world, top, scan_depth),
        keeps_below(world, top, scan_depth, walk),
        walk.next < walk.pending.len(),
    ensures
        keeps_below(
            world,
            top,
            scan_depth,
            discovery::step_walk(walk, world::visit_in(world, walk, scan_depth)),
        ),
{
    let at = current(walk);
    let visit = world::visit_in(world, walk, scan_depth);
    let further = discovery::step_walk(walk, visit);
    let old = walk.pending.len() as int;
    assert(walk.pending[walk.next as int] == at);
    lemma_reached_readable(world, top, scan_depth, at.path, at.depth as int);
    lemma_visit_out(world, walk, scan_depth);
    lemma_listed_children(world, at.path);
    assert forall|i: int| 0 <= i < further.pending.len() implies (#[trigger] further.pending[i]).depth
        <= scan_depth && reached(
        world,
        top,
        further.pending[i].path,
        further.pending[i].depth as int,
    ) && (i >= old ==> further.pending[i].depth == at.depth + 1) by {
        if i < old {
            assert(further.pending[i] == walk.pending[i]);
        } else {
            let child = visit.children[i - old];
            assert(further.pending[i].path == child);
            assert(led_to(world, at.path, child));
            let name = choose|name: Seq<u8>| #[trigger]
                leads_on(world, at.path, name) && child == filepath::joined(at.path, name);
            lemma_child_reached(world, top, at.path, at.depth as int, name);
        }
    }
    assert forall|i: int, j: int| 0 <= i < j < further.pending.len() implies (
    #[trigger] further.pending[i]).depth <= (#[trigger] further.pending[j]).depth by {
        if i < old {
            assert(further.pending[i] == walk.pending[i]);
        }
        if j < old {
            assert(further.pending[j] == walk.pending[j]);
        }
    }
    if further.next < further.pending.len() {
        assert forall|j: int| 0 <= j < further.pending.len() implies (
        #[trigger] further.pending[j]).depth <= current(further).depth + 1 by {
            assert(further.pending[walk.next as int] == at);
            assert(further.pending[walk.next as int].depth
                <= further.pending[further.next as int].depth);
            if j < old {
                assert(further.pending[j] == walk.pending[j]);
            }
        }
    }
}

/// A directory that was visited before is one that the walk has come by, no deeper.
proof fn lemma_came_by_before(
    world: spec_fn(RequestView) -> ReplyView,
    top: Seq<u8>,
    scan_depth: u32,
    walk: WalkView,
    n: nat,
) -> (i: int)
    requires
        world::normal(world),
        all_readable(world, top, scan_depth),
        keeps_below(world, top, scan_depth, walk),
        misses_nothing(world, top, scan_depth, walk, n),
        walk.next < walk.pending.len(),
        walk.visited.contains(filepath::components(current(walk).path)),
    ensures
        0 <= i < walk.next,
        walk.pending[i].path == current(walk).path,
        walk.pending[i].depth <= current(walk).depth,
{
    let at = current(walk);
    let components = filepath::components(at.path);
    let k = choose|k: int| 0 <= k < walk.visited.len() && walk.visited[k] == components;
    assert(came_by(walk, walk.visited[k]));
    let i = choose|i: int|
        0 <= i < walk.next && filepath::components((#[trigger] walk.pending[i]).path) == components;
    let before = walk.pending[i];
    assert(walk.pending[walk.next as int] == at);
    lemma_reached_readable(world, top, scan_depth, at.path, at.depth as int);
    lemma_reached_readable(world, top, scan_depth, before.path, before.depth as int);
    assert(filepath::same_path(
        world::canonical(world, before.path)->Ok_0,
        world::canonical(world, at.path)->Ok_0,
    ));
    i
}

proof fn lemma_still_pending(
    pending: Seq<PendingDirectoryView>,
    longer: Seq<PendingDirectoryView>,
    path: Seq<u8>,
    depth: int,
    deeper: int,
)
    requires
        is_pending(pending, path, depth),
        pending.is_prefix_of(longer),
        depth <= deeper,
    ensures
        is_pending(longer, path, deeper),
{
    let j = choose|j: int|
        0 <= j < pending.len() && (#[trigger] pending[j]).path == path && pending[j].depth <= depth;
    assert(longer[j] == pending[j]);
}

proof fn lemma_still_found(
    world: spec_fn(RequestView) -> ReplyView,
    top: Seq<u8>,
    scan_depth: u32,
    n: nat,
    m: nat,
    repository: RepositoryView,
)
    requires
        was_found(world, top, scan_depth, n, repository),
        n <= m,
    ensures
        was_found(world, top, scan_depth, m, repository),
{
    let k = choose|k: nat|
        k < n && #[trigger] world::found_at(world, top, scan_depth, k) == Some(repository);
    assert(world::found_at(world, top, scan_depth, k) == Some(repository));
}

/// A walk that goes on misses nothing.
proof fn lemma_step_misses_nothing(
    world: spec_fn(RequestView) -> ReplyView,
    top: Seq<u8>,
    scan_depth: u32,
    walk: WalkView,
    n: nat,
)
    requires
        world::normal(world),
        all_readable(world, top, scan_depth),
        keeps_below(world, top, scan_depth, walk),
        misses_nothing(world, top, scan_depth, walk, n),
        walk.next < walk.pending.len(),
        walk == world::walk_at(world, top, scan_depth, n),
    ensures
        misses_nothing(
            world,
            top,
            scan_depth,
            discovery::step_walk(walk, world::visit_in(world, walk, scan_depth)),
            n + 1,
        ),
{
    let at = current(walk);
    let visit = world::visit_in(world, walk, scan_depth);
    let further = discovery::step_walk(walk, visit);
    let old = walk.pending.len() as int;
    let again = walk.visited.contains(filepath::components(at.path));
    assert(walk.pending[walk.next as int] == at);
    lemma_reached_readable(world, top, scan_depth, at.path, at.depth as int);
    lemma_visit_out(world, walk, scan_depth);
    lemma_listed_children(world, at.path);
    assert(walk.pending.is_prefix_of(further.pending));
    assert forall|i: int| 0 <= i < old implies #[trigger] further.pending[i]
        == walk.pending[i] by {}
    assert forall|k: int| 0 <= k < further.visited.len() implies came_by(
        further,
        #[trigger] further.visited[k],
    ) by {
        if k < walk.visited.len() {
            assert(came_by(walk, walk.visited[k]));
            let i = choose|i: int|
                0 <= i < walk.next && filepath::components((#[trigger] walk.pending[i]).path)
                    == walk.visited[k];
            assert(further.pending[i] == walk.pending[i]);
        } else {
            assert(further.pending[walk.next as int] == at);
        }
    }
    assert forall|i: int, name: Seq<u8>|
        0 <= i < further.next && further.pending[i].depth < scan_depth && #[trigger] leads_on(
            world,
            further.pending[i].path,
            name,
        ) implies is_pending(
        further.pending,
        filepath::joined(further.pending[i].path, name),
        further.pending[i].depth + 1,
    ) by {
        assert(further.pending[i] == walk.pending[i]);
        let child = filepath::joined(further.pending[i].path, name);
        let depth = further.pending[i].depth + 1;
        if i < walk.next {
            assert(leads_on(world, walk.pending[i].path, name));
            lemma_still_pending(walk.pending, further.pending, child, depth, depth);
        } else if again {
            let k = lemma_came_by_before(world, top, scan_depth, walk, n);
            assert(leads_on(world, walk.pending[k].path, name));
            lemma_still_pending(
                walk.pending,
                further.pending,
                child,
                walk.pending[k].depth + 1,
                depth,
            );
        } else {
            assert(visit.children.contains(child));
            let k = choose|k: int| 0 <= k < visit.children.len() && visit.children[k] == child;
            assert(further.pending[old + k].path == child);
        }
    }
    assert forall|i: int| 0 <= i < further.next implies (repository_at(
        world,
        (#[trigger] further.pending[i]).path,
    ) matches Some(repository) ==> was_found(world, top, scan_depth, n + 1, repository)) by {
        assert(further.pending[i] == walk.pending[i]);
        if let Some(repository) = repository_at(world, further.pending[i].path) {
            if i < walk.next {
                assert(repository_at(world, walk.pending[i].path) == Some(repository));
                lemma_still_found(world, top, scan_depth, n, n + 1, repository);
            } else if again {
                let k = lemma_came_by_before(world, top, scan_depth, walk, n);
                assert(repository_at(world, walk.pending[k].path) == Some(repository));
                lemma_still_found(world, top, scan_depth, n, n + 1, repository);
            } else {
                assert(world::found_at(world, top, scan_depth, n) == Some(repository));
            }
        }
    }
}

proof fn lemma_walks(
    world: spec_fn(RequestView) -> ReplyView,
    top: Seq<u8>,
    scan_depth: u32,
    n: nat,
)
    requires
        world::normal(world),
        all_readable(world, top, scan_depth),
    ensures
        keeps_below(world, top, scan_depth, world::walk_at(world, top, scan_depth, n)),
        misses_nothing(world, top, scan_depth, world::walk_at(world, top, scan_depth, n), n),
    decreases n,
{
    if n == 0 {
        let names = Seq::<Seq<u8>>::empty();
        assert(lies_below(world, top, names));
        assert(place(top, names) == top);
    } else {
        let before = world::walk_at(world, top, scan_depth, (n - 1) as nat);
        lemma_walks(world, top, scan_depth, (n - 1) as nat);
        if before.next < before.pending.len() {
            lemma_step_keeps_below(world, top, scan_depth, before);
            lemma_step_misses_nothing(world, top, scan_depth, before, (n - 1) as nat);
        } else {
            assert forall|i: int| 0 <= i < before.next implies (repository_at(
                world,
                (#[trigger] before.pending[i]).path,
            ) matches Some(repository) ==> was_found(
                world,
                top,
                scan_depth,
                n,
                repository,
            )) by {
                if let Some(repository) = repository_at(world, before.pending[i].path) {
                    lemma_still_found(world, top, scan_depth, (n - 1) as nat, n, repository);
                }
            }
        }
    }
}

/// What is pending stays so, and a walk that is over stays as it is.
proof fn lemma_walk_grows(
    world: spec_fn(RequestView) -> ReplyView,
    top: Seq<u8>,
    scan_depth: u32,
    n: nat,
    m: nat,
)
    requires
        n <= m,
    ensures
        ({
            let walk = world::walk_at(world, top, scan_depth, n);
            let further = world::walk_at(world, top, scan_depth, m);
            &&& walk.pending.is_prefix_of(further.pending)
            &&& walk.next >= walk.pending.len() ==> further == walk
        }),
    decreases m,
{
    if n < m {
        lemma_walk_grows(world, top, scan_depth, n, (m - 1) as nat);
        let before = world::walk_at(world, top, scan_depth, (m - 1) as nat);
        let further = world::walk_at(world, top, scan_depth, m);
        assert(before.pending.is_prefix_of(further.pending));
    }
}

/// A walk makes one visit after the other, until it is over.
proof fn lemma_walk_goes_on(
    world: spec_fn(RequestView) -> ReplyView,
    top: Seq<u8>,
    scan_depth: u32,
    n: nat,
)
    ensures
        ({
            let walk = world::walk_at(world, top, scan_depth, n);
            walk.next == n || (walk.next < n && walk.next == walk.pending.len())
        }),
        world::walk_at(world, top, scan_depth, n).next <= world::walk_at(
            world,
            top,
            scan_depth,
            n,
        ).pending.len(),
    decreases n,
{
    if n > 0 {
        lemma_walk_goes_on(world, top, scan_depth, (n - 1) as nat);
    }
}

/// A walk comes by every directory that is ever pending.
proof fn lemma_comes_by(
    world: spec_fn(RequestView) -> ReplyView,
    top: Seq<u8>,
    scan_depth: u32,
    n: nat,
    j: int,
)
    requires
        0 <= j < world::walk_at(world, top, scan_depth, n).pending.len(),
    ensures
        ({
            let walk = world::walk_at(world, top, scan_depth, (j + 1) as nat);
            j < walk.next && walk.next <= walk.pending.len() && walk.pending[j] == world::walk_at(
                world,
                top,
                scan_depth,
                n,
            ).pending[j]
        }),
{
    let m = (j + 1) as nat;
    lemma_walk_goes_on(world, top, scan_depth, m);
    if n <= m {
        lemma_walk_grows(world, top, scan_depth, n, m);
    } else {
        lemma_walk_grows(world, top, scan_depth, m, n);
    }
}

/// A walk comes by every directory that lies below the top, down to the depth of the search.
proof fn lemma_all_pending(
    world: spec_fn(RequestView) -> ReplyView,
    top: Seq<u8>,
    scan_depth: u32,
    names: Seq<Seq<u8>>,
) -> (n: nat)
    requires
        world::normal(world),
        all_readable(world, top, scan_depth),
        names.len() <= scan_depth,
        lies_below(world, top, names),
    ensures
        is_pending(
            world::walk_at(world, top, scan_depth, n).pending,
            place(top, names),
            names.len() as int,
        ),
    decreases names.len(),
{
    if names.len() == 0 {
        let walk = world::walk_at(world, top, scan_depth, 0);
        assert(walk.pending[0].path == top);
        0
    } else {
        let shorter = names.drop_last();
        let path = place(top, shorter);
        let n = lemma_all_pending(world, top, scan_depth, shorter);
        let pending = world::walk_at(world, top, scan_depth, n).pending;
        let j = choose|j: int|
            0 <= j < pending.len() && (#[trigger] pending[j]).path == path && pending[j].depth
                <= shorter.len();
        let m = (j + 1) as nat;
        lemma_comes_by(world, top, scan_depth, n, j);
        lemma_walks(world, top, scan_depth, m);
        let walk = world::walk_at(world, top, scan_depth, m);
        assert(leads_on(world, walk.pending[j].path, names.last()));
        lemma_still_pending(
            walk.pending,
            walk.pending,
            place(top, names),
            walk.pending[j].depth + 1,
            names.len() as int,
        );
        m
    }
}

/// What a search finds, in a file system in which every read succeeds: exactly the directories that
/// lie at most as many levels below one of the roots as the search goes deep, to which no symbolic
/// link and no ignored name leads below the root, and which have a directory `.git` that Git
/// resolves.
pub proof fn law_searches_find_what_lies_below(
    world: spec_fn(RequestView) -> ReplyView,
    roots: Seq<Seq<u8>>,
    scan_depth: u32,
    one: RepositoryView,
)
    requires
        world::normal(world),
        forall|root: Seq<u8>| #[trigger]
            roots.contains(root) ==> (world::canonical(world, root) matches Ok(top)
                && all_readable(world, top, scan_depth)),
    ensures
        world::found_below(world, roots, scan_depth, one) <==> belongs_below(
            world,
            roots,
            scan_depth,
            one,
        ),
{
    if world::found_below(world, roots, scan_depth, one) {
        let (root, n) = choose|root: Seq<u8>, n: nat|
            #![trigger roots.contains(root), world::found_at(world, world::canonical(world, root)->Ok_0, scan_depth, n)]
            roots.contains(root) && world::canonical(world, root) is Ok && world::found_at(
                world,
                world::canonical(world, root)->Ok_0,
                scan_depth,
                n,
            ) == Some(one);
        let top = world::canonical(world, root)->Ok_0;
        let walk = world::walk_at(world, top, scan_depth, n);
        lemma_walks(world, top, scan_depth, n);
        let at = walk.pending[walk.next as int];
        lemma_reached_readable(world, top, scan_depth, at.path, at.depth as int);
        lemma_visit_out(world, walk, scan_depth);
        let names = choose|names: Seq<Seq<u8>>| #[trigger]
            lies_below(world, top, names) && names.len() == at.depth && place(top, names)
                == at.path;
        assert(lies_below(world, world::canonical(world, root)->Ok_0, names));
    }
    if belongs_below(world, roots, scan_depth, one) {
        let (root, names) = choose|root: Seq<u8>, names: Seq<Seq<u8>>|
            #![trigger roots.contains(root), lies_below(world, world::canonical(world, root)->Ok_0, names)]
            roots.contains(root) && world::canonical(world, root) is Ok && names.len()
                <= scan_depth && lies_below(world, world::canonical(world, root)->Ok_0, names)
                && repository_at(world, place(world::canonical(world, root)->Ok_0, names)) == Some(
                one,
            );
        let top = world::canonical(world, root)->Ok_0;
        let path = place(top, names);
        let n = lemma_all_pending(world, top, scan_depth, names);
        let pending = world::walk_at(world, top, scan_depth, n).pending;
        let j = choose|j: int|
            0 <= j < pending.len() && (#[trigger] pending[j]).path == path && pending[j].depth
                <= names.len();
        let m = (j + 1) as nat;
        lemma_comes_by(world, top, scan_depth, n, j);
        lemma_walks(world, top, scan_depth, m);
        let walk = world::walk_at(world, top, scan_depth, m);
        assert(repository_at(world, walk.pending[j].path) == Some(one));
        assert(was_found(world, top, scan_depth, m, one));
        let k = choose|k: nat|
            k < m && #[trigger] world::found_at(world, top, scan_depth, k) == Some(one);
        assert(world::found_at(world, world::canonical(world, root)->Ok_0, scan_depth, k) == Some(
            one,
        ));
    }
}

/// What a finished search tells, in a file system in which every read succeeds: only repositories
/// that belong below its roots, and every one of them, as its Git common directory tells it, by the
/// first of its paths.
pub proof fn law_results_are_what_lies_below(
    world: spec_fn(RequestView) -> ReplyView,
    roots: Seq<Seq<u8>>,
    scan_depth: u32,
    n: nat,
    one: RepositoryView,
)
    requires
        world::normal(world),
        forall|root: Seq<u8>| #[trigger]
            roots.contains(root) ==> (world::canonical(world, root) matches Ok(top)
                && all_readable(world, top, scan_depth)),
        discovery::search_request(
            world::searched(world, discovery::new_search(roots, scan_depth), n),
        ) is None,
    ensures
        discovery::search_result(
            world::searched(world, discovery::new_search(roots, scan_depth), n),
        ).repositories.contains(one) ==> belongs_below(world, roots, scan_depth, one),
        belongs_below(world, roots, scan_depth, one) ==> exists|other: RepositoryView|
            #![trigger belongs_below(world, roots, scan_depth, other)]
            discovery::search_result(
                world::searched(world, discovery::new_search(roots, scan_depth), n),
            ).repositories.contains(other) && belongs_below(world, roots, scan_depth, other)
                && other.git_common_directory == one.git_common_directory
                && !filepath::path_before(one.path, other.path),
{
    let told = discovery::search_result(
        world::searched(world, discovery::new_search(roots, scan_depth), n),
    ).repositories;
    world::law_results_are_what_is_found(world, roots, scan_depth, n, one);
    law_searches_find_what_lies_below(world, roots, scan_depth, one);
    if belongs_below(world, roots, scan_depth, one) {
        let other = choose|other: RepositoryView|
            #![trigger world::found_below(world, roots, scan_depth, other)]
            told.contains(other) && world::found_below(world, roots, scan_depth, other)
                && other.git_common_directory == one.git_common_directory
                && !filepath::path_before(one.path, other.path);
        law_searches_find_what_lies_below(world, roots, scan_depth, other);
        assert(belongs_below(world, roots, scan_depth, other));
    }
}

/// Whether a line asks Git, and no other repository than the one at a path, for the absolute path
/// of its common directory.
pub open spec fn asks_common(line: CommandLineView, path: Seq<u8>) -> bool {
    runs_git(line, path) && line.arguments =~= seq![
        "rev-parse"@,
        "--path-format=absolute"@,
        "--git-common-dir"@,
    ]
}

/// Whether Git resolves the common directories of repositories: of a path that has one it prints
/// it, and of any other it fails.
pub open spec fn resolves(
    world: spec_fn(RequestView) -> ReplyView,
    commons: Map<Seq<u8>, Seq<char>>,
) -> bool {
    &&& forall|line: CommandLineView, path: Seq<u8>|
        #![trigger asks_common(line, path), world(RequestView::Run(line))]
        asks_common(line, path) ==> if commons.contains_key(path) {
            prints(world(RequestView::Run(line)), commons[path].push('\n'))
        } else {
            exits(world(RequestView::Run(line)), 128)
        }
    &&& forall|path: Seq<u8>| #[trigger]
        commons.contains_key(path) ==> plain(commons[path]) && filepath::absolute(
            encode_utf8(commons[path]),
        )
}

/// Whether a directory is a repository with the given common directory: it lists a `.git`, which
/// is a directory, and Git resolves its common directory to a place that exists.
pub open spec fn is_repository(
    world: spec_fn(RequestView) -> ReplyView,
    commons: Map<Seq<u8>, Seq<char>>,
    path: Seq<u8>,
    repository: RepositoryView,
) -> bool {
    &&& repository.path == path
    &&& listed(world, path) matches Ok(entries) && exists|i: int|
        0 <= i < entries.len() && (#[trigger] entries[i]).name == encode_utf8(".git"@)
    &&& world(RequestView::IsDirectory(filepath::joined(path, encode_utf8(".git"@))))
        == ReplyView::IsDirectory(Ok(true))
    &&& commons.contains_key(path)
    &&& world(RequestView::Canonicalize(encode_utf8(commons[path]))) == ReplyView::Canonical(
        Ok(repository.git_common_directory),
    )
}

/// A directory is found to be a repository exactly when it is one, where Git resolves common
/// directories.
pub proof fn law_repositories_are_what_git_resolves(
    world: spec_fn(RequestView) -> ReplyView,
    commons: Map<Seq<u8>, Seq<char>>,
    path: Seq<u8>,
    repository: RepositoryView,
)
    requires
        resolves(world, commons),
    ensures
        repository_at(world, path) == Some(repository) <==> is_repository(
            world,
            commons,
            path,
            repository,
        ),
{
    let line = discovery::common_command(path);
    assert(line.removed[0] == "GIT_DIR"@ && line.removed[1] == "GIT_WORK_TREE"@);
    assert(line.environment[0] == ("GIT_OPTIONAL_LOCKS"@, "0"@));
    assert(asks_common(line, path));
    if commons.contains_key(path) {
        lemma_printed_name(commons[path]);
    }
}

/// What is found below roots, told of the file system and of Git alone.
pub proof fn law_searches_find_every_repository(
    world: spec_fn(RequestView) -> ReplyView,
    commons: Map<Seq<u8>, Seq<char>>,
    roots: Seq<Seq<u8>>,
    scan_depth: u32,
    root: Seq<u8>,
    names: Seq<Seq<u8>>,
    repository: RepositoryView,
)
    requires
        world::normal(world),
        resolves(world, commons),
        forall|root: Seq<u8>| #[trigger]
            roots.contains(root) ==> (world::canonical(world, root) matches Ok(top)
                && all_readable(world, top, scan_depth)),
        roots.contains(root),
        names.len() <= scan_depth,
        lies_below(world, world::canonical(world, root)->Ok_0, names),
        is_repository(
            world,
            commons,
            place(world::canonical(world, root)->Ok_0, names),
            repository,
        ),
    ensures
        world::found_below(world, roots, scan_depth, repository),
{
    let top = world::canonical(world, root)->Ok_0;
    law_repositories_are_what_git_resolves(world, commons, place(top, names), repository);
    assert(roots.contains(root) && lies_below(world, world::canonical(world, root)->Ok_0, names));
    law_searches_find_what_lies_below(world, roots, scan_depth, repository);
}

/// What comes of a visit that goes wrong is told: a path that cannot be resolved or leads out of
/// the root, a directory that cannot be listed, a `.git` that cannot be looked at, and Git that
/// does not resolve it, each as one problem under the path that it is about.
pub proof fn law_failed_reads_are_told(
    root: Seq<u8>,
    path: Seq<u8>,
    depth: u32,
    scan_depth: u32,
    visited: Seq<Seq<Seq<u8>>>,
    failure: PathFailureView,
    canonical: Seq<u8>,
    message: Seq<char>,
)
    ensures
        discovery::visit_flow(
            root,
            path,
            depth,
            scan_depth,
            visited,
            seq![ReplyView::Canonical(Err(failure))],
            0,
        ) matches Flow::Done(visit, _) && visit.repository is None && visit.children.len() == 0
            && visit.issues.len() == 1 && visit.issues[0].path == path && visit.issues[0].message
            == failure.message && (visit.issues[0].kind is InaccessibleRoot <==> depth == 0 && (
        failure.kind is NotFound || failure.kind is PermissionDenied || failure.kind
            is NotADirectory)) && (visit.issues[0].kind is InaccessibleRoot
            || visit.issues[0].kind is UnsafeCanonicalization),
        !filepath::path_within(canonical, root) ==> (discovery::visit_flow(
            root,
            path,
            depth,
            scan_depth,
            visited,
            seq![ReplyView::Canonical(Ok(canonical))],
            0,
        ) matches Flow::Done(visit, _) && visit.repository is None && visit.children.len() == 0
            && visit.issues.len() == 1 && visit.issues[0].path == canonical && visit.issues[0].kind
            is UnsafeCanonicalization),
        filepath::path_within(canonical, root) && !visited.contains(
            filepath::components(canonical),
        ) ==> (discovery::visit_flow(
            root,
            path,
            depth,
            scan_depth,
            visited,
            seq![ReplyView::Canonical(Ok(canonical)), ReplyView::Directory(Err(message))],
            0,
        ) matches Flow::Done(visit, _) && visit.repository is None && visit.children.len() == 0
            && visit.issues.len() == 1 && visit.issues[0].path == canonical
            && visit.issues[0].message == message && (if depth == 0 {
            visit.issues[0].kind is InaccessibleRoot
        } else {
            visit.issues[0].kind is InaccessibleDirectory
        })),
        discovery::git_flow(path, seq![ReplyView::IsDirectory(Err(message))], 0) matches Flow::Done(
            Err(issue),
            _,
        ) && issue.path == path && issue.kind is InvalidGitMetadata,
        discovery::git_flow(path, seq![ReplyView::IsDirectory(Ok(false))], 0) matches Flow::Done(
            Ok(found),
            _,
        ) && found is None,
        discovery::git_flow(
            path,
            seq![
                ReplyView::IsDirectory(Ok(true)),
                ReplyView::Command(CommandResultView::Failed(message)),
            ],
            0,
        ) matches Flow::Done(Err(issue), _) && issue.path == path && issue.kind
            is InvalidGitMetadata,
{
}

proof fn lemma_child_issues(path: Seq<u8>, entries: Seq<DirectoryEntryView>)
    ensures
        forall|i: int|
            0 <= i < entries.len() && !passed_over((#[trigger] entries[i]).name)
                && entries[i].kind is Unknown ==> discovery::child_issues(path, entries).contains(
                DiscoveryIssueView {
                    path: filepath::joined(path, entries[i].name),
                    kind: DiscoveryIssueKind::InaccessibleDirectory,
                    message: entries[i].kind->Unknown_0,
                },
            ),
    decreases entries.len(),
{
    if entries.len() > 0 {
        let shorter = entries.drop_last();
        lemma_child_issues(path, shorter);
        law_nine_names_are_passed_over(entries.last().name);
        let before = discovery::child_issues(path, shorter);
        let issues = discovery::child_issues(path, entries);
        assert forall|i: int|
            0 <= i < entries.len() && !passed_over((#[trigger] entries[i]).name) && entries[i].kind
                is Unknown implies issues.contains(
            DiscoveryIssueView {
                path: filepath::joined(path, entries[i].name),
                kind: DiscoveryIssueKind::InaccessibleDirectory,
                message: entries[i].kind->Unknown_0,
            },
        ) by {
            let issue = DiscoveryIssueView {
                path: filepath::joined(path, entries[i].name),
                kind: DiscoveryIssueKind::InaccessibleDirectory,
                message: entries[i].kind->Unknown_0,
            };
            if i < shorter.len() {
                assert(shorter[i] == entries[i]);
                assert(before.contains(issue));
                if issues != before {
                    lemma_push_contains(before, issues.last(), issue);
                    assert(issues == before.push(issues.last()));
                }
            } else {
                lemma_push_contains(before, issue, issue);
            }
        }
    }
}

/// An entry of which it cannot be found out what it is is told as a problem, unless it is passed
/// over or lies too deep.
pub proof fn law_entries_of_unknown_kind_are_told(
    path: Seq<u8>,
    entries: Seq<DirectoryEntryView>,
    depth: u32,
    scan_depth: u32,
    replies: Seq<ReplyView>,
    visit: VisitView,
    next: int,
    i: int,
)
    requires
        discovery::entries_flow(path, entries, depth, scan_depth, replies, 0) == Flow::<
            VisitView,
        >::Done(visit, next),
        0 <= i < entries.len(),
        entries[i].kind is Unknown,
        !passed_over(entries[i].name),
        depth < scan_depth,
    ensures
        visit.issues.contains(
            DiscoveryIssueView {
                path: filepath::joined(path, entries[i].name),
                kind: DiscoveryIssueKind::InaccessibleDirectory,
                message: entries[i].kind->Unknown_0,
            },
        ),
{
    lemma_child_issues(path, entries);
    let issue = DiscoveryIssueView {
        path: filepath::joined(path, entries[i].name),
        kind: DiscoveryIssueKind::InaccessibleDirectory,
        message: entries[i].kind->Unknown_0,
    };
    let issues = discovery::child_issues(path, entries);
    let k = choose|k: int| 0 <= k < issues.len() && issues[k] == issue;
    if visit.issues != issues {
        assert(visit.issues[k + 1] == issue);
    }
}

} // verus!
