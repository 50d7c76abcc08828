//! What holds of all searches.
use crate::command;
use crate::command::{ReplyView, RequestView};
use crate::discovery;
use crate::discovery::{DiscovererView, RepositoryView};
use crate::filepath;
use crate::flow::Flow;
use vstd::prelude::*;

verus! {

/// Whether repositories are in the order of their Git common directories, each of which is
/// different from all others.
pub open spec fn in_common_order(repositories: Seq<RepositoryView>) -> bool {
    forall|i: int, j: int|
        0 <= i < j < repositories.len() ==> filepath::path_before(
            (#[trigger] repositories[i]).git_common_directory,
            (#[trigger] repositories[j]).git_common_directory,
        )
}

/// Whether `repositories` hold the common directory, and a path that does not come behind `path`.
pub open spec fn covers(
    repositories: Seq<RepositoryView>,
    common: Seq<u8>,
    path: Seq<u8>,
) -> bool {
    exists|k: int|
        0 <= k < repositories.len() && filepath::same_path(
            (#[trigger] repositories[k]).git_common_directory,
            common,
        ) && !filepath::path_before(path, repositories[k].path)
}

/// Whether an entry is one of `repositories`, or `found`, or one of them whose path has become that
/// of `found`.
pub open spec fn comes_from(
    repositories: Seq<RepositoryView>,
    found: RepositoryView,
    entry: RepositoryView,
) -> bool {
    repositories.contains(entry) || entry == found || (entry.path == found.path
        && filepath::same_path(entry.git_common_directory, found.git_common_directory)
        && exists|j: int|
        0 <= j < repositories.len() && (#[trigger] repositories[j]).git_common_directory
            == entry.git_common_directory)
}

pub(crate) proof fn lemma_keep_sources(repositories: Seq<RepositoryView>, found: RepositoryView)
    ensures
        forall|k: int|
            0 <= k < discovery::keep_repository(repositories, found).len() ==> comes_from(
                repositories,
                found,
                #[trigger] discovery::keep_repository(repositories, found)[k],
            ),
    decreases repositories.len(),
{
    let kept = discovery::keep_repository(repositories, found);
    if repositories.len() > 0 {
        let n = repositories.len() - 1;
        let last = repositories[n];
        let shorter = repositories.drop_last();
        assert forall|k: int| 0 <= k < kept.len() implies comes_from(
            repositories,
            found,
            #[trigger] kept[k],
        ) by {
            if filepath::same_path(last.git_common_directory, found.git_common_directory) {
                if k < n {
                    assert(kept[k] == repositories[k]);
                } else {
                    assert(repositories[n].git_common_directory == kept[k].git_common_directory);
                }
            } else if filepath::path_before(
                last.git_common_directory,
                found.git_common_directory,
            ) {
                if k <= n {
                    assert(kept[k] == repositories[k]);
                }
            } else {
                lemma_keep_sources(shorter, found);
                let before = discovery::keep_repository(shorter, found);
                if k < before.len() {
                    assert(kept[k] == before[k]);
                    assert(comes_from(shorter, found, before[k]));
                    if shorter.contains(before[k]) {
                        let m = choose|m: int| 0 <= m < shorter.len() && shorter[m] == before[k];
                        assert(repositories[m] == before[k]);
                    } else if before[k] != found {
                        let m = choose|m: int|
                            0 <= m < shorter.len() && (#[trigger] shorter[m]).git_common_directory
                                == before[k].git_common_directory;
                        assert(repositories[m].git_common_directory
                            == before[k].git_common_directory);
                    }
                } else {
                    assert(kept[k] == repositories[n]);
                }
            }
        }
    }
}

pub(crate) proof fn lemma_shorter_order(repositories: Seq<RepositoryView>)
    requires
        repositories.len() > 0,
        in_common_order(repositories),
    ensures
        in_common_order(repositories.drop_last()),
{
    let shorter = repositories.drop_last();
    assert forall|i: int, j: int| 0 <= i < j < shorter.len() implies filepath::path_before(
        (#[trigger] shorter[i]).git_common_directory,
        (#[trigger] shorter[j]).git_common_directory,
    ) by {
        assert(filepath::path_before(
            repositories[i].git_common_directory,
            repositories[j].git_common_directory,
        ));
    }
}

pub(crate) proof fn lemma_keep_order(repositories: Seq<RepositoryView>, found: RepositoryView)
    requires
        in_common_order(repositories),
    ensures
        in_common_order(discovery::keep_repository(repositories, found)),
    decreases repositories.len(),
{
    let kept = discovery::keep_repository(repositories, found);
    if repositories.len() > 0 {
        let n = repositories.len() - 1;
        let last = repositories[n];
        let shorter = repositories.drop_last();
        let before = discovery::keep_repository(shorter, found);
        lemma_shorter_order(repositories);
        filepath::lemma_path_total(last.git_common_directory, found.git_common_directory);
        let inside = !filepath::same_path(last.git_common_directory, found.git_common_directory)
            && !filepath::path_before(last.git_common_directory, found.git_common_directory);
        if inside {
            lemma_keep_order(shorter, found);
            lemma_keep_sources(shorter, found);
        }
        assert forall|i: int, j: int| 0 <= i < j < kept.len() implies filepath::path_before(
            (#[trigger] kept[i]).git_common_directory,
            (#[trigger] kept[j]).git_common_directory,
        ) by {
            if inside {
                assert(kept[i] == before[i]);
                if j < before.len() {
                    assert(kept[j] == before[j]);
                } else {
                    assert(kept[j] == last);
                    assert(comes_from(shorter, found, before[i]));
                    if before[i].git_common_directory != found.git_common_directory {
                        let m = choose|m: int|
                            0 <= m < shorter.len() && (#[trigger] shorter[m]).git_common_directory
                                == before[i].git_common_directory;
                        assert(filepath::path_before(
                            repositories[m].git_common_directory,
                            repositories[n].git_common_directory,
                        ));
                    }
                }
            } else if j <= n {
                assert(kept[i].git_common_directory == repositories[i].git_common_directory);
                assert(kept[j].git_common_directory == repositories[j].git_common_directory);
            } else if i < n {
                assert(filepath::path_before(
                    repositories[i].git_common_directory,
                    repositories[n].git_common_directory,
                ));
                filepath::lemma_path_transitive(
                    repositories[i].git_common_directory,
                    last.git_common_directory,
                    found.git_common_directory,
                );
            }
        }
    }
}

pub(crate) proof fn lemma_keep_covers(
    repositories: Seq<RepositoryView>,
    found: RepositoryView,
    common: Seq<u8>,
    path: Seq<u8>,
)
    requires
        covers(repositories, common, path) || (common == found.git_common_directory && path
            == found.path),
    ensures
        covers(discovery::keep_repository(repositories, found), common, path),
    decreases repositories.len(),
{
    let kept = discovery::keep_repository(repositories, found);
    filepath::lemma_path_total(path, path);
    if repositories.len() == 0 {
        assert(kept[0] == found);
    } else {
        let n = repositories.len() - 1;
        let last = repositories[n];
        let shorter = repositories.drop_last();
        filepath::lemma_path_total(last.path, found.path);
        if covers(repositories, common, path) {
            let k = choose|k: int|
                0 <= k < repositories.len() && filepath::same_path(
                    (#[trigger] repositories[k]).git_common_directory,
                    common,
                ) && !filepath::path_before(path, repositories[k].path);
            if filepath::same_path(last.git_common_directory, found.git_common_directory) {
                assert(kept[k].git_common_directory == repositories[k].git_common_directory);
                if kept[k].path != repositories[k].path {
                    if filepath::path_before(path, found.path) {
                        filepath::lemma_path_transitive(path, found.path, last.path);
                    }
                }
            } else if filepath::path_before(last.git_common_directory, found.git_common_directory) {
                assert(kept[k] == repositories[k]);
            } else {
                let before = discovery::keep_repository(shorter, found);
                if k < n {
                    assert(shorter[k] == repositories[k]);
                    lemma_keep_covers(shorter, found, common, path);
                    lemma_covers_push(before, last, common, path);
                } else {
                    assert(kept[before.len() as int] == last);
                }
            }
        } else {
            if filepath::same_path(last.git_common_directory, found.git_common_directory) {
                assert(filepath::same_path(kept[n].git_common_directory, common));
            } else if filepath::path_before(last.git_common_directory, found.git_common_directory) {
                assert(kept[n + 1] == found);
            } else {
                lemma_keep_covers(shorter, found, common, path);
                lemma_covers_push(
                    discovery::keep_repository(shorter, found),
                    last,
                    common,
                    path,
                );
            }
        }
    }
}

proof fn lemma_covers_itself(repositories: Seq<RepositoryView>, j: int)
    requires
        0 <= j < repositories.len(),
    ensures
        covers(repositories, repositories[j].git_common_directory, repositories[j].path),
{
    filepath::lemma_path_total(repositories[j].path, repositories[j].path);
    assert(filepath::same_path(
        repositories[j].git_common_directory,
        repositories[j].git_common_directory,
    ));
}

proof fn lemma_covers_push(
    repositories: Seq<RepositoryView>,
    last: RepositoryView,
    common: Seq<u8>,
    path: Seq<u8>,
)
    requires
        covers(repositories, common, path),
    ensures
        covers(repositories.push(last), common, path),
{
    let k = choose|k: int|
        0 <= k < repositories.len() && filepath::same_path(
            (#[trigger] repositories[k]).git_common_directory,
            common,
        ) && !filepath::path_before(path, repositories[k].path);
    assert(repositories.push(last)[k] == repositories[k]);
}

/// Of all working directories that were found for a common directory, the one whose path comes
/// first is kept: neither what was found now nor anything that was kept before comes before what
/// is kept for its common directory.
pub proof fn law_the_first_path_is_kept(
    repositories: Seq<RepositoryView>,
    found: RepositoryView,
)
    requires
        in_common_order(repositories),
    ensures
        covers(
            discovery::keep_repository(repositories, found),
            found.git_common_directory,
            found.path,
        ),
        forall|j: int|
            0 <= j < repositories.len() ==> covers(
                discovery::keep_repository(repositories, found),
                (#[trigger] repositories[j]).git_common_directory,
                repositories[j].path,
            ),
{
    lemma_keep_covers(repositories, found, found.git_common_directory, found.path);
    assert forall|j: int| 0 <= j < repositories.len() implies covers(
        discovery::keep_repository(repositories, found),
        (#[trigger] repositories[j]).git_common_directory,
        repositories[j].path,
    ) by {
        lemma_covers_itself(repositories, j);
        lemma_keep_covers(
            repositories,
            found,
            repositories[j].git_common_directory,
            repositories[j].path,
        );
    }
}

/// Whether a path lies at or below one of the roots that were walked.
pub open spec fn below_a_root(roots: Seq<Seq<Seq<u8>>>, path: Seq<u8>) -> bool {
    exists|r: int|
        0 <= r < roots.len() && (#[trigger] roots[r]).is_prefix_of(filepath::components(path))
}

/// What holds of a search at every step: what was found is in order and lies below a root that
/// was walked; the walk is below such a root, has a directory to visit that it still has to ask
/// about, and goes no deeper than the scan does.
pub open spec fn search_coherent(search: DiscovererView) -> bool {
    &&& in_common_order(search.repositories)
    &&& forall|k: int|
        0 <= k < search.repositories.len() ==> below_a_root(
            search.seen_roots,
            (#[trigger] search.repositories[k]).path,
        )
    &&& search.walk is None ==> search.replies.len() == 0
    &&& search.walk matches Some(walk) ==> {
        &&& search.seen_roots.contains(filepath::components(walk.root))
        &&& walk.next < walk.pending.len()
        &&& discovery::current_visit(search, walk, search.replies) is Ask
        &&& forall|k: int|
            0 <= k < walk.pending.len() ==> (#[trigger] walk.pending[k]).depth
                <= search.scan_depth
    }
}

/// A search is coherent when it starts, and stays so whatever the replies are.
pub proof fn law_searches_stay_coherent(
    roots: Seq<Seq<u8>>,
    scan_depth: u32,
    search: DiscovererView,
    reply: ReplyView,
)
    requires
        search_coherent(search),
    ensures
        search_coherent(discovery::new_search(roots, scan_depth)),
        search_coherent(discovery::search_advance(search, reply)),
{
    let next = discovery::search_advance(search, reply);
    match search.walk {
        None => {
            if search.next_root < search.roots.len() {
                if let Ok(root) = command::canonical_path(reply) {
                    if !search.seen_roots.contains(filepath::components(root)) {
                        let added = filepath::components(root);
                        assert(next.seen_roots[search.seen_roots.len() as int] == added);
                        assert(next.seen_roots.contains(added));
                        assert forall|k: int| 0 <= k < next.repositories.len() implies below_a_root(
                            next.seen_roots,
                            (#[trigger] next.repositories[k]).path,
                        ) by {
                            let path = search.repositories[k].path;
                            assert(below_a_root(search.seen_roots, path));
                            let r = choose|r: int|
                                0 <= r < search.seen_roots.len() && (
                                #[trigger] search.seen_roots[r]).is_prefix_of(
                                    filepath::components(path),
                                );
                            assert(next.seen_roots[r] == search.seen_roots[r]);
                        }
                    }
                }
            }
        },
        Some(walk) => {
            let replies = search.replies.push(reply);
            if let Flow::Done(visit, _) = discovery::current_visit(search, walk, replies) {
                if let Some(found) = visit.repository {
                    lemma_keep_order(search.repositories, found);
                    lemma_keep_sources(search.repositories, found);
                    let r = choose|r: int|
                        0 <= r < search.seen_roots.len() && search.seen_roots[r]
                            == filepath::components(walk.root);
                    assert(filepath::path_within(found.path, walk.root));
                    assert(search.seen_roots[r].is_prefix_of(filepath::components(found.path)));
                    assert forall|k: int| 0 <= k < next.repositories.len() implies below_a_root(
                        next.seen_roots,
                        (#[trigger] next.repositories[k]).path,
                    ) by {
                        let kept = next.repositories[k];
                        assert(kept == discovery::keep_repository(search.repositories, found)[k]);
                        assert(comes_from(search.repositories, found, kept));
                        if kept.path != found.path {
                            let j = choose|j: int|
                                0 <= j < search.repositories.len() && search.repositories[j] == kept;
                            assert(below_a_root(
                                search.seen_roots,
                                search.repositories[j].path,
                            ));
                        }
                    }
                }
                let depth = walk.pending[walk.next as int].depth;
                assert(visit.children.len() > 0 ==> depth < search.scan_depth);
                if let Some(more) = next.walk {
                    assert forall|k: int| 0 <= k < more.pending.len() implies (
                    #[trigger] more.pending[k]).depth <= search.scan_depth by {
                        if k < walk.pending.len() {
                            assert(more.pending[k] == walk.pending[k]);
                        }
                    }
                }
            }
        },
    }
}

proof fn lemma_insert_place<T>(items: Seq<T>, item: T, before: spec_fn(T, T) -> bool) -> (at: int)
    ensures
        0 <= at <= items.len(),
        discovery::insert_by(items, item, before) == items.insert(at, item),
        forall|j: int| at <= j < items.len() ==> before(item, #[trigger] items[j]),
        at > 0 ==> !before(item, items[at - 1]),
    decreases items.len(),
{
    if items.len() > 0 && before(item, items.last()) {
        let shorter = items.drop_last();
        let at = lemma_insert_place(shorter, item, before);
        assert forall|j: int| at <= j < items.len() implies before(item, #[trigger] items[j]) by {
            if j < shorter.len() {
                assert(before(item, shorter[j]));
            }
        }
        assert(shorter.insert(at, item).push(items.last()) =~= items.insert(at, item));
        at
    } else {
        assert(items.push(item) =~= items.insert(items.len() as int, item));
        items.len() as int
    }
}

/// Whether no repository of the row comes before one that stands in front of it.
pub open spec fn in_path_order(repositories: Seq<RepositoryView>) -> bool {
    forall|i: int, j: int|
        0 <= i < j < repositories.len() ==> !filepath::path_before(
            (#[trigger] repositories[j]).path,
            (#[trigger] repositories[i]).path,
        )
}

/// Whether no two repositories of the row have the same Git common directory.
pub open spec fn distinct_commons(repositories: Seq<RepositoryView>) -> bool {
    forall|i: int, j: int|
        0 <= i < j < repositories.len() ==> !filepath::same_path(
            (#[trigger] repositories[i]).git_common_directory,
            (#[trigger] repositories[j]).git_common_directory,
        )
}

proof fn lemma_sort(repositories: Seq<RepositoryView>)
    requires
        distinct_commons(repositories),
    ensures
        discovery::sort_by(repositories, discovery::repository_order()).len() == repositories.len(),
        in_path_order(discovery::sort_by(repositories, discovery::repository_order())),
        distinct_commons(discovery::sort_by(repositories, discovery::repository_order())),
        forall|k: int|
            0 <= k < repositories.len() ==> repositories.contains(
                #[trigger] discovery::sort_by(repositories, discovery::repository_order())[k],
            ),
        forall|k: int|
            0 <= k < repositories.len() ==> discovery::sort_by(repositories, discovery::repository_order()).contains(
                #[trigger] repositories[k],
            ),
    decreases repositories.len(),
{
    if repositories.len() > 0 {
        let order = discovery::repository_order();
        let shorter = repositories.drop_last();
        let last = repositories.last();
        let n = repositories.len() - 1;
        assert forall|i: int, j: int| 0 <= i < j < shorter.len() implies !filepath::same_path(
            (#[trigger] shorter[i]).git_common_directory,
            (#[trigger] shorter[j]).git_common_directory,
        ) by {
            assert(!filepath::same_path(
                repositories[i].git_common_directory,
                repositories[j].git_common_directory,
            ));
        }
        lemma_sort(shorter);
        let before = discovery::sort_by(shorter, order);
        let at = lemma_insert_place(before, last, order);
        let sorted = discovery::sort_by(repositories, order);
        assert(sorted == before.insert(at, last));
        assert forall|k: int| 0 <= k < before.len() implies !filepath::same_path(
            (#[trigger] before[k]).git_common_directory,
            last.git_common_directory,
        ) by {
            let m = choose|m: int| 0 <= m < shorter.len() && shorter[m] == before[k];
            assert(!filepath::same_path(
                repositories[m].git_common_directory,
                repositories[n].git_common_directory,
            ));
        }
        assert forall|i: int, j: int| 0 <= i < j < sorted.len() implies !filepath::path_before(
            (#[trigger] sorted[j]).path,
            (#[trigger] sorted[i]).path,
        ) by {
            if i < at && j == at {
                filepath::lemma_path_total(last.path, before[at - 1].path);
                filepath::lemma_path_total(before[at - 1].path, before[i].path);
                if filepath::path_before(last.path, before[i].path) {
                    if i < at - 1 {
                        assert(!filepath::path_before(before[at - 1].path, before[i].path));
                        if filepath::path_before(before[i].path, before[at - 1].path) {
                            filepath::lemma_path_transitive(
                                last.path,
                                before[i].path,
                                before[at - 1].path,
                            );
                        }
                    }
                }
            } else if i == at {
                assert(order(last, before[j - 1]));
                filepath::lemma_path_total(last.path, before[j - 1].path);
            } else {
                let a = if i < at {
                    i
                } else {
                    i - 1
                };
                let b = if j < at {
                    j
                } else {
                    j - 1
                };
                assert(!filepath::path_before(before[b].path, before[a].path));
            }
        }
        assert forall|i: int, j: int| 0 <= i < j < sorted.len() implies !filepath::same_path(
            (#[trigger] sorted[i]).git_common_directory,
            (#[trigger] sorted[j]).git_common_directory,
        ) by {
            let a = if i < at {
                i
            } else {
                i - 1
            };
            let b = if j < at {
                j
            } else {
                j - 1
            };
            if i == at {
                assert(sorted[j] == before[b]);
            } else if j == at {
                assert(sorted[i] == before[a]);
            } else {
                assert(!filepath::same_path(
                    before[a].git_common_directory,
                    before[b].git_common_directory,
                ));
            }
        }
        assert forall|k: int| 0 <= k < repositories.len() implies repositories.contains(
            #[trigger] sorted[k],
        ) by {
            if k == at {
                assert(repositories[n] == last);
            } else {
                let b = if k < at {
                    k
                } else {
                    k - 1
                };
                let m = choose|m: int| 0 <= m < shorter.len() && shorter[m] == before[b];
                assert(repositories[m] == sorted[k]);
            }
        }
        assert forall|k: int| 0 <= k < repositories.len() implies sorted.contains(
            #[trigger] repositories[k],
        ) by {
            if k == n {
                assert(sorted[at] == last);
            } else {
                assert(shorter[k] == repositories[k]);
                assert(before.contains(shorter[k]));
                let m = choose|m: int| 0 <= m < before.len() && before[m] == shorter[k];
                let b = if m < at {
                    m
                } else {
                    m + 1
                };
                assert(sorted[b] == repositories[k]);
            }
        }
    }
}

/// What a search reports is in the order of the paths, has no two repositories with the same Git
/// common directory, and has every repository that was kept and no other.
pub proof fn law_discoveries_are_sorted_and_distinct(search: DiscovererView)
    requires
        search_coherent(search),
    ensures
        in_path_order(discovery::search_result(search).repositories),
        distinct_commons(discovery::search_result(search).repositories),
        discovery::search_result(search).repositories.len() == search.repositories.len(),
        forall|k: int|
            0 <= k < search.repositories.len() ==> discovery::search_result(search).repositories.contains(
                #[trigger] search.repositories[k],
            ),
        forall|k: int|
            0 <= k < search.repositories.len() ==> search.repositories.contains(
                #[trigger] discovery::search_result(search).repositories[k],
            ),
{
    assert forall|i: int, j: int|
        0 <= i < j < search.repositories.len() implies !filepath::same_path(
        (#[trigger] search.repositories[i]).git_common_directory,
        (#[trigger] search.repositories[j]).git_common_directory,
    ) by {
        filepath::lemma_path_total(
            search.repositories[i].git_common_directory,
            search.repositories[j].git_common_directory,
        );
    }
    lemma_sort(search.repositories);
}

/// A search does not stop early: it asks for something until every root was looked at and every
/// walk is over.
pub proof fn law_searches_do_not_stop_early(search: DiscovererView)
    requires
        search_coherent(search),
    ensures
        discovery::search_request(search) is None <==> search.walk is None && search.next_root
            >= search.roots.len(),
{
}

/// Whether a request of a search only looks.
pub open spec fn only_looks_for_repositories(request: RequestView) -> bool {
    match request {
        RequestView::Canonicalize(_) => true,
        RequestView::ListDirectory(_) => true,
        RequestView::IsDirectory(_) => true,
        RequestView::Run(line) => line.program == "git"@ && line.arguments.len() == 3
            && line.arguments[0] == "rev-parse"@,
        _ => false,
    }
}

/// A search changes nothing: every request of it only looks.
pub proof fn law_searches_only_look(search: DiscovererView)
    ensures
        discovery::search_request(search) matches Some(request) ==> only_looks_for_repositories(
            request,
        ),
{
}

} // verus!
