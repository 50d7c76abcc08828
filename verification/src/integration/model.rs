//! Proofs by a Worktrunk that does what it is asked to do.
use crate::command::{CommandLineView, CommandResultView, ReplyView, RequestView};
use crate::cleanup::model::runs;
use crate::filepath;
use crate::flow;
use crate::flow::Flow;
use crate::inspection::{RepositoryInspectionView, WorktreeClassification, WorktreeInspectionView};
use crate::integration;
use crate::integration::{AdapterErrorView, IntegrationCandidateView, IntegrationPresence};
use crate::integration::{IntegrationProof, IntegrationReason, ListEnvelopeView, ListItemView};
use crate::integration::{RelationPresence, REQUIRED_SCHEMA};
use crate::text;
use vstd::prelude::*;
use vstd::utf8::*;

verus! {

/// What Worktrunk prints of its version.
pub open spec fn version_line(
    major: u64,
    minor: u64,
    patch: u64,
    addition: Seq<char>,
) -> Seq<char> {
    "wt "@ + numbered(major, minor, patch) + addition + "\n"@
}

/// Three numbers with dots between them.
pub open spec fn numbered(major: u64, minor: u64, patch: u64) -> Seq<char> {
    text::decimal_text(major as nat).push('.') + (text::decimal_text(minor as nat).push('.')
        + text::decimal_text(patch as nat))
}

/// Whether a text has no white space in it.
pub open spec fn one_word(word: Seq<char>) -> bool {
    forall|i: int| 0 <= i < word.len() ==> !text::white_space(#[trigger] word[i])
}

proof fn lemma_word(word: Seq<char>, rest: Seq<char>)
    requires
        one_word(word),
        rest.len() > 0,
        text::white_space(rest[0]),
    ensures
        text::word_length(word + rest) == word.len(),
    decreases word.len(),
{
    if word.len() == 0 {
        assert(word + rest =~= rest);
    } else {
        let shorter = word.skip(1);
        assert forall|i: int| 0 <= i < shorter.len() implies !text::white_space(
            #[trigger] shorter[i],
        ) by {
            assert(shorter[i] == word[i + 1]);
        }
        lemma_word(shorter, rest);
        assert((word + rest).skip(1) =~= shorter + rest);
        assert((word + rest)[0] == word[0]);
    }
}

proof fn lemma_one_piece(part: Seq<char>, separator: char)
    requires
        forall|i: int| 0 <= i < part.len() ==> #[trigger] part[i] != separator,
    ensures
        text::split_text(part, separator) == seq![part],
    decreases part.len(),
{
    if part.len() > 0 {
        let shorter = part.drop_last();
        assert forall|i: int| 0 <= i < shorter.len() implies #[trigger] shorter[i] != separator by {
            assert(shorter[i] == part[i]);
        }
        lemma_one_piece(shorter, separator);
        assert(part[part.len() - 1] != separator);
        assert(seq![shorter].drop_last() =~= Seq::<Seq<char>>::empty());
        assert(shorter.push(part.last()) =~= part);
        assert(text::split_text(part, separator) =~= seq![part]);
    } else {
        assert(part =~= Seq::<char>::empty());
    }
}

proof fn lemma_numbered(major: u64, minor: u64, patch: u64, addition: Seq<char>)
    requires
        addition.len() == 0 || addition[0] == '-',
    ensures
        integration::parse_version(numbered(major, minor, patch) + addition) == Some(
            integration::Version { major, minor, patch },
        ),
        one_word(numbered(major, minor, patch)),
        numbered(major, minor, patch).len() > 0,
{
    let first = text::decimal_text(major as nat);
    let second = text::decimal_text(minor as nat);
    let third = text::decimal_text(patch as nat);
    let core = numbered(major, minor, patch);
    text::lemma_decimal_reads_back(major as nat);
    text::lemma_decimal_reads_back(minor as nat);
    text::lemma_decimal_reads_back(patch as nat);
    assert forall|i: int| 0 <= i < core.len() implies core[i] == '.' || '0' <= #[trigger] core[i]
        <= '9' by {
        if i < first.len() {
            assert(core[i] == first[i]);
        } else if i > first.len() && i < first.len() + 1 + second.len() {
            assert(core[i] == second[i - first.len() - 1]);
        } else if i > first.len() + 1 + second.len() {
            assert(core[i] == third[i - first.len() - second.len() - 2]);
        }
    }
    assert forall|i: int| 0 <= i < core.len() implies #[trigger] core[i] != '-' by {
        assert(core[i] == '.' || '0' <= core[i] <= '9');
    }
    assert(one_word(core)) by {
        assert forall|i: int| 0 <= i < core.len() implies !text::white_space(
            #[trigger] core[i],
        ) by {
            assert(core[i] == '.' || '0' <= core[i] <= '9');
        }
    }
    lemma_one_piece(core, '-');
    let value = core + addition;
    if addition.len() == 0 {
        assert(value =~= core);
    } else {
        assert(value =~= core.push('-') + addition.skip(1));
        text::lemma_split_joins(core, '-', addition.skip(1));
    }
    assert(text::split_text(value, '-')[0] == core);
    assert forall|i: int| 0 <= i < first.len() implies #[trigger] first[i] != '.' by {
        assert('0' <= first[i] <= '9');
    }
    assert forall|i: int| 0 <= i < second.len() implies #[trigger] second[i] != '.' by {
        assert('0' <= second[i] <= '9');
    }
    assert forall|i: int| 0 <= i < third.len() implies #[trigger] third[i] != '.' by {
        assert('0' <= third[i] <= '9');
    }
    lemma_one_piece(first, '.');
    lemma_one_piece(second, '.');
    lemma_one_piece(third, '.');
    text::lemma_split_joins(first, '.', second.push('.') + third);
    text::lemma_split_joins(second, '.', third);
    let parts = text::split_text(core, '.');
    assert(parts == seq![first] + (seq![second] + seq![third]));
    assert(parts.len() == 3 && parts[0] == first && parts[1] == second && parts[2] == third);
    assert(text::parse_unsigned(first, u64::MAX as nat) == Some(major as nat));
    assert(text::parse_unsigned(second, u64::MAX as nat) == Some(minor as nat));
    assert(text::parse_unsigned(third, u64::MAX as nat) == Some(patch as nat));
}

proof fn lemma_version_read(major: u64, minor: u64, patch: u64, addition: Seq<char>)
    requires
        addition.len() == 0 || addition[0] == '-',
        one_word(addition),
    ensures
        text::second_word(version_line(major, minor, patch, addition)) == Some(
            numbered(major, minor, patch) + addition,
        ),
{
    let value = numbered(major, minor, patch) + addition;
    let line = version_line(major, minor, patch, addition);
    lemma_numbered(major, minor, patch, addition);
    reveal_strlit("wt ");
    let name = seq!['w', 't'];
    let rest = seq![' '] + value + seq!['\n'];
    assert("wt "@ =~= name + seq![' ']);
    assert("\n"@ =~= seq!['\n']) by {
        reveal_strlit("\n");
    }
    assert(line =~= name + rest);
    assert(text::trim_start(line) == line);
    lemma_word(name, rest);
    assert(line.skip(2) =~= rest);
    let second = value + seq!['\n'];
    assert(rest.skip(1) =~= second);
    assert(one_word(value)) by {
        let core = numbered(major, minor, patch);
        assert forall|i: int| 0 <= i < value.len() implies !text::white_space(
            #[trigger] value[i],
        ) by {
            if i < core.len() {
                assert(value[i] == core[i]);
            } else {
                assert(value[i] == addition[i - core.len()]);
            }
        }
    }
    assert(second[0] == value[0]);
    reveal_with_fuel(text::trim_start, 3);
    assert(text::trim_start(rest) == second);
    lemma_word(value, seq!['\n']);
    assert(second.take(value.len() as int) =~= value);
}

/// Worktrunk is relied on exactly from version 0.66.0 on, whatever is added to the number.
pub proof fn law_old_versions_are_refused(
    major: u64,
    minor: u64,
    patch: u64,
    addition: Seq<char>,
    stderr: Seq<u8>,
)
    requires
        addition.len() == 0 || addition[0] == '-',
        one_word(addition),
    ensures
        ({
            let error = integration::version_error(
                CommandResultView::Exited {
                    code: Some(0),
                    stdout: encode_utf8(version_line(major, minor, patch, addition)),
                    stderr,
                },
            );
            &&& major > 0 || minor >= 66 ==> error is None
            &&& major == 0 && minor < 66 ==> error == Some(
                AdapterErrorView::IncompatibleVersion {
                    found: text::decimal_text(major as nat) + "."@ + text::decimal_text(
                        minor as nat,
                    ) + "."@ + text::decimal_text(patch as nat),
                    minimum: "0.66.0"@,
                },
            )
        }),
{
    let line = version_line(major, minor, patch, addition);
    encode_utf8_valid_utf8(line);
    encode_utf8_decode_utf8(line);
    lemma_version_read(major, minor, patch, addition);
    lemma_numbered(major, minor, patch, addition);
    lemma_minimum();
}

proof fn lemma_minimum()
    ensures
        integration::version_text(integration::minimum_version()) == "0.66.0"@,
{
    reveal_strlit(".");
    reveal_strlit("0.66.0");
    reveal_with_fuel(text::decimal_text, 3);
    assert(text::decimal_text(0) =~= seq!['0']);
    assert(text::decimal_text(66) =~= seq!['6', '6']);
    assert(integration::version_text(integration::minimum_version()) =~= "0.66.0"@);
}

/// Whether Worktrunk tells a version that is relied on, and lists worktrees in the layout that it
/// is asked for: the list in layout `n` is `lists(n)`.
pub open spec fn lists_as_asked(
    world: spec_fn(RequestView) -> ReplyView,
    repository: Seq<u8>,
    timeout: u64,
    lists: spec_fn(u32) -> ListEnvelopeView,
) -> bool {
    &&& forall|line: CommandLineView|
        runs(line, "wt"@, seq!["--version"@], timeout) ==> ((#[trigger] world(
            RequestView::Run(line),
        )) matches ReplyView::Command(CommandResultView::Exited { code, stdout, .. }) && code
            == Some(0i32) && stdout == encode_utf8(version_line(0, 74, 0, Seq::empty())))
    &&& forall|line: CommandLineView, n: u32|
        runs(
            line,
            "wt"@,
            seq![
                "-C"@,
                text::lossy_text(repository),
                "--config-set"@,
                "list.json-schema="@ + text::decimal_text(n as nat),
                "list"@,
                "--format=json"@,
            ],
            timeout,
        ) ==> ((#[trigger] world(RequestView::Run(line))) matches ReplyView::Command(
            CommandResultView::Exited { code, stdout, .. },
        ) && code == Some(0i32) && world(RequestView::DecodeList(stdout)) == ReplyView::List(
            Ok(#[trigger] lists(n)),
        ))
    &&& forall|n: u32| (#[trigger] lists(n)).schema == n
}

/// Whether the row number `k` is the only one that tells of a branch at a path.
pub open spec fn only_row(
    items: Seq<ListItemView>,
    branch: Seq<char>,
    path: Seq<u8>,
    k: int,
) -> bool {
    &&& 0 <= k < items.len()
    &&& items[k].branch == Some(branch)
    &&& items[k].worktree matches Some(worktree) && filepath::same_path(worktree, path)
    &&& forall|j: int|
        0 <= j < items.len() && j != k && (#[trigger] items[j]).branch == Some(branch) ==> !(
        items[j].worktree matches Some(worktree) && filepath::same_path(worktree, path))
}

/// Whether a list proves something of a candidate: its only row names the commit of the candidate,
/// its branch is not the default branch, and the row tells its relation to the default branch. A
/// reason proves the integration, no reason where the relation is there that there is none, and
/// anything else nothing.
pub open spec fn proves(
    items: Seq<ListItemView>,
    default_branch: Seq<char>,
    branch: Seq<char>,
    candidate: IntegrationCandidateView,
    found: IntegrationProof,
) -> bool {
    exists|k: int|
        {
            &&& #[trigger] only_row(items, branch, candidate.path, k)
            &&& branch != default_branch
            &&& items[k].head == Some(candidate.head)
            &&& match items[k].default_branch {
                RelationPresence::Missing => false,
                RelationPresence::Null => found is Indeterminate,
                RelationPresence::Value(IntegrationPresence::Missing) => found is NotIntegrated,
                RelationPresence::Value(IntegrationPresence::Null) => found is Indeterminate,
                RelationPresence::Value(IntegrationPresence::Value(reason)) => found
                    == IntegrationProof::Integrated(reason),
            }
        }
}

proof fn lemma_rows(items: Seq<ListItemView>, branch: Seq<char>, path: Seq<u8>)
    ensures
        integration::matching_rows(items, branch, path).len() == 0 <==> forall|j: int|
            0 <= j < items.len() ==> !integration::row_matches(#[trigger] items[j], branch, path),
        integration::matching_rows(items, branch, path).len() == 1 <==> exists|k: int|
            #[trigger] only_row(items, branch, path, k),
        forall|k: int| #[trigger]
            only_row(items, branch, path, k) ==> integration::matching_rows(items, branch, path)
                == seq![items[k]],
    decreases items.len(),
{
    let rows = integration::matching_rows(items, branch, path);
    if items.len() > 0 {
        let shorter = items.drop_last();
        let last = (items.len() - 1) as int;
        let before = integration::matching_rows(shorter, branch, path);
        lemma_rows(shorter, branch, path);
        assert forall|j: int| 0 <= j < last implies #[trigger] shorter[j] == items[j] by {}
        if integration::row_matches(items[last], branch, path) {
            if before.len() == 0 {
                assert(only_row(items, branch, path, last)) by {
                    assert forall|j: int|
                        0 <= j < items.len() && j != last && (#[trigger] items[j]).branch == Some(
                            branch,
                        ) implies !(items[j].worktree matches Some(worktree)
                        && filepath::same_path(worktree, path)) by {
                        assert(!integration::row_matches(shorter[j], branch, path));
                    }
                }
                assert(rows =~= seq![items[last]]);
            }
            assert forall|k: int| #[trigger] only_row(items, branch, path, k) implies k == last
                && before.len() == 0 by {
                if k != last {
                    assert(items[last].branch == Some(branch));
                }
                assert forall|j: int| 0 <= j < shorter.len() implies !integration::row_matches(
                    #[trigger] shorter[j],
                    branch,
                    path,
                ) by {
                    assert(items[j] == shorter[j]);
                }
            }
        } else {
            assert(rows == before);
            assert forall|k: int| #[trigger] only_row(items, branch, path, k) implies only_row(
                shorter,
                branch,
                path,
                k,
            ) by {
                assert(k < last);
            }
            assert forall|k: int| #[trigger] only_row(shorter, branch, path, k) implies only_row(
                items,
                branch,
                path,
                k,
            ) by {
                assert forall|j: int|
                    0 <= j < items.len() && j != k && (#[trigger] items[j]).branch == Some(
                        branch,
                    ) implies !(items[j].worktree matches Some(worktree) && filepath::same_path(
                    worktree,
                    path,
                )) by {
                    if j < last {
                        assert(shorter[j] == items[j]);
                    }
                }
            }
            if exists|k: int| #[trigger] only_row(shorter, branch, path, k) {
                let k = choose|k: int| #[trigger] only_row(shorter, branch, path, k);
                assert(only_row(items, branch, path, k));
            }
            if exists|k: int| #[trigger] only_row(items, branch, path, k) {
                let k = choose|k: int| #[trigger] only_row(items, branch, path, k);
                assert(only_row(shorter, branch, path, k));
            }
            if before.len() == 0 {
                assert forall|j: int| 0 <= j < items.len() implies !integration::row_matches(
                    #[trigger] items[j],
                    branch,
                    path,
                ) by {
                    if j < last {
                        assert(!integration::row_matches(shorter[j], branch, path));
                    }
                }
            } else {
                let j = choose|j: int|
                    0 <= j < shorter.len() && integration::row_matches(
                        #[trigger] shorter[j],
                        branch,
                        path,
                    );
                assert(integration::row_matches(items[j], branch, path));
            }
        }
    }
}

/// A list proves of a candidate what its only row says, and nothing else proves anything.
pub proof fn law_the_only_row_proves(
    items: Seq<ListItemView>,
    default_branch: Seq<char>,
    branch: Seq<char>,
    candidate: IntegrationCandidateView,
    found: IntegrationProof,
)
    requires
        candidate.branch == "refs/heads/"@ + branch,
    ensures
        integration::candidate_proof(items, default_branch, candidate) == Ok::<
            IntegrationProof,
            AdapterErrorView,
        >(found) <==> proves(items, default_branch, branch, candidate, found),
{
    let prefix = "refs/heads/"@;
    assert(candidate.branch.take(prefix.len() as int) =~= prefix);
    assert(candidate.branch.skip(prefix.len() as int) =~= branch);
    assert(prefix.is_prefix_of(candidate.branch));
    assert(text::without_prefix(candidate.branch, prefix) == branch);
    lemma_rows(items, branch, candidate.path);
    assert forall|k: int| #[trigger] only_row(items, branch, candidate.path, k) implies
        integration::matching_rows(items, branch, candidate.path)[0] == items[k] by {}
}

proof fn lemma_all_proofs(
    items: Seq<ListItemView>,
    default_branch: Seq<char>,
    branches: Seq<Seq<char>>,
    candidates: Seq<IntegrationCandidateView>,
    done: Seq<IntegrationProof>,
)
    requires
        branches.len() == candidates.len(),
        forall|i: int|
            0 <= i < candidates.len() ==> (#[trigger] candidates[i]).branch == "refs/heads/"@
                + branches[i],
        done.len() <= candidates.len(),
        forall|i: int|
            0 <= i < done.len() ==> proves(
                items,
                default_branch,
                branches[i],
                candidates[i],
                #[trigger] done[i],
            ),
    ensures
        match integration::candidate_proofs(items, default_branch, candidates, done) {
            Ok(proofs) => proofs.len() == candidates.len() && forall|i: int|
                0 <= i < proofs.len() ==> proves(
                    items,
                    default_branch,
                    branches[i],
                    candidates[i],
                    #[trigger] proofs[i],
                ),
            Err(error) => error is MalformedResult && exists|i: int|
                0 <= i < candidates.len() && proves_nothing(
                    items,
                    default_branch,
                    branches[i],
                    #[trigger] candidates[i],
                ),
        },
    decreases candidates.len() - done.len(),
{
    if done.len() < candidates.len() {
        let i = done.len() as int;
        match integration::candidate_proof(items, default_branch, candidates[i]) {
            Err(_) => {
                assert forall|found: IntegrationProof| !#[trigger] proves(
                    items,
                    default_branch,
                    branches[i],
                    candidates[i],
                    found,
                ) by {
                    law_the_only_row_proves(
                        items,
                        default_branch,
                        branches[i],
                        candidates[i],
                        found,
                    );
                }
                assert(proves_nothing(items, default_branch, branches[i], candidates[i]));
            },
            Ok(found) => {
                law_the_only_row_proves(
                    items,
                    default_branch,
                    branches[i],
                    candidates[i],
                    found,
                );
                let more = done.push(found);
                assert forall|j: int| 0 <= j < more.len() implies proves(
                    items,
                    default_branch,
                    branches[j],
                    candidates[j],
                    #[trigger] more[j],
                ) by {
                    if j < done.len() {
                        assert(more[j] == done[j]);
                    }
                }
                lemma_all_proofs(items, default_branch, branches, candidates, more);
            },
        }
    }
}

/// Whether a list proves nothing of a candidate.
pub open spec fn proves_nothing(
    items: Seq<ListItemView>,
    default_branch: Seq<char>,
    branch: Seq<char>,
    candidate: IntegrationCandidateView,
) -> bool {
    forall|found: IntegrationProof| !#[trigger]
        proves(items, default_branch, branch, candidate, found)
}

proof fn lemma_lines(repository: Seq<u8>, timeout: u64)
    ensures
        runs(integration::version_command(timeout), "wt"@, seq!["--version"@], timeout),
        runs(
            integration::list_command(repository, timeout),
            "wt"@,
            seq![
                "-C"@,
                text::lossy_text(repository),
                "--config-set"@,
                "list.json-schema="@ + text::decimal_text(REQUIRED_SCHEMA as nat),
                "list"@,
                "--format=json"@,
            ],
            timeout,
        ),
{
    let version = integration::version_command(timeout);
    assert(version.removed[0] == "GIT_DIR"@ && version.removed[1] == "GIT_WORK_TREE"@);
    assert(version.environment[0] == ("GIT_OPTIONAL_LOCKS"@, "0"@));
    assert(version.environment[1] == ("GIT_TERMINAL_PROMPT"@, "0"@));
    let list = integration::list_command(repository, timeout);
    assert(list.removed[0] == "GIT_DIR"@ && list.removed[1] == "GIT_WORK_TREE"@);
    assert(list.environment[0] == ("GIT_OPTIONAL_LOCKS"@, "0"@));
    assert(list.environment[1] == ("GIT_TERMINAL_PROMPT"@, "0"@));
    reveal_strlit("list.json-schema=");
    reveal_strlit("list.json-schema=2");
    reveal_with_fuel(text::decimal_text, 2);
    assert(text::decimal_text(2) =~= seq!['2']);
    assert("list.json-schema=2"@ =~= "list.json-schema="@ + text::decimal_text(
        REQUIRED_SCHEMA as nat,
    ));
}

/// A Worktrunk that lists worktrees in the layout that it is asked for is asked for the one that is
/// understood: its list is never refused for its layout. It proves of every candidate what the only
/// row of the candidate says, or, where a candidate has none that says anything, of none; without a
/// default branch it proves nothing of any.
pub proof fn law_worktrunk_is_asked_for_what_is_understood(
    world: spec_fn(RequestView) -> ReplyView,
    repository: Seq<u8>,
    branches: Seq<Seq<char>>,
    candidates: Seq<IntegrationCandidateView>,
    timeout: u64,
    lists: spec_fn(u32) -> ListEnvelopeView,
)
    requires
        lists_as_asked(world, repository, timeout, lists),
        candidates.len() > 0,
        branches.len() == candidates.len(),
        forall|i: int|
            0 <= i < candidates.len() ==> (#[trigger] candidates[i]).branch == "refs/heads/"@
                + branches[i],
    ensures
        ({
            let list = lists(2);
            let unresolved = list.default_branch is None || list.default_branch->0.len() == 0;
            flow::answered(
                |replies: Seq<ReplyView>|
                    integration::prove_flow(repository, candidates, timeout, replies, 0),
                world,
                Seq::empty(),
                3,
            ) matches Some(result) && match result {
                Ok(proofs) => proofs.len() == candidates.len() && forall|i: int|
                    0 <= i < proofs.len() ==> if unresolved {
                        (#[trigger] proofs[i]) is DefaultBranchUnresolved
                    } else {
                        proves(
                            list.items,
                            list.default_branch->0,
                            branches[i],
                            candidates[i],
                            proofs[i],
                        )
                    },
                Err(error) => error is MalformedResult && !unresolved && exists|i: int|
                    0 <= i < candidates.len() && proves_nothing(
                        list.items,
                        list.default_branch->0,
                        branches[i],
                        #[trigger] candidates[i],
                    ),
            }
        }),
{
    let work = |replies: Seq<ReplyView>|
        integration::prove_flow(repository, candidates, timeout, replies, 0);
    lemma_lines(repository, timeout);
    let version = integration::version_command(timeout);
    let list = integration::list_command(repository, timeout);
    let asked0 = RequestView::Run(version);
    let asked1 = RequestView::Run(list);
    let line = version_line(0, 74, 0, Seq::empty());
    let stderr = world(asked0)->Command_0->stderr;
    law_old_versions_are_refused(0, 74, 0, Seq::empty(), stderr);
    assert(world(asked0) == ReplyView::Command(
        CommandResultView::Exited { code: Some(0), stdout: encode_utf8(line), stderr },
    ));
    let envelope = lists(REQUIRED_SCHEMA);
    let stdout = world(asked1)->Command_0->stdout;
    let asked2 = RequestView::DecodeList(stdout);
    let replies0 = Seq::<ReplyView>::empty();
    let replies1 = replies0.push(world(asked0));
    let replies2 = replies1.push(world(asked1));
    let replies3 = replies2.push(world(asked2));
    assert(work(replies0) == Flow::<
        Result<Seq<IntegrationProof>, AdapterErrorView>,
    >::Ask(asked0));
    flow::lemma_answered_asks(work, world, replies0, 3, asked0);
    assert(work(replies1) == Flow::<
        Result<Seq<IntegrationProof>, AdapterErrorView>,
    >::Ask(asked1));
    flow::lemma_answered_asks(work, world, replies1, 2, asked1);
    assert(world(asked2) == ReplyView::List(Ok(envelope)));
    assert(work(replies2) == Flow::<
        Result<Seq<IntegrationProof>, AdapterErrorView>,
    >::Ask(asked2));
    flow::lemma_answered_asks(work, world, replies2, 1, asked2);
    assert(envelope.schema == REQUIRED_SCHEMA);
    if let Some(name) = envelope.default_branch {
        lemma_all_proofs(envelope.items, name, branches, candidates, Seq::empty());
    }
}

/// A list in another layout than the one that is understood proves nothing.
pub proof fn law_other_layouts_prove_nothing(
    envelope: ListEnvelopeView,
    candidates: Seq<IntegrationCandidateView>,
)
    ensures
        envelope.schema != 2 ==> integration::envelope_proofs(envelope, candidates) == Err::<
            Seq<IntegrationProof>,
            AdapterErrorView,
        >(AdapterErrorView::IncompatibleSchema(envelope.schema)),
{
}

/// Whether a classification is the one that a proof leads to.
pub open spec fn classified_by(found: IntegrationProof, to: WorktreeClassification) -> bool {
    &&& to is IntegratedSameCommit <==> found == IntegrationProof::Integrated(
        IntegrationReason::SameCommit,
    )
    &&& to is IntegratedAncestor <==> found == IntegrationProof::Integrated(
        IntegrationReason::Ancestor,
    )
    &&& to is IntegratedNoAddedChanges <==> found == IntegrationProof::Integrated(
        IntegrationReason::NoAddedChanges,
    )
    &&& to is IntegratedTreesMatch <==> found == IntegrationProof::Integrated(
        IntegrationReason::TreesMatch,
    )
    &&& to is IntegratedMergeAddsNothing <==> found == IntegrationProof::Integrated(
        IntegrationReason::MergeAddsNothing,
    )
    &&& to is IntegratedPatchIdMatch <==> found == IntegrationProof::Integrated(
        IntegrationReason::PatchIdMatch,
    )
    &&& to is NotIntegrated <==> found is NotIntegrated
    &&& to is IntegrationIndeterminate <==> found is Indeterminate
    &&& to is DefaultBranchUnresolved <==> found is DefaultBranchUnresolved
}

proof fn lemma_candidates(worktrees: Seq<WorktreeInspectionView>, j: int)
    requires
        0 <= j < worktrees.len(),
        integration::needs_proof(worktrees[j]),
    ensures
        ({
            let k = integration::candidates_among(worktrees.take(j)).len() as int;
            let candidates = integration::candidates_among(worktrees);
            &&& k < candidates.len()
            &&& candidates[k] == (IntegrationCandidateView {
                path: worktrees[j].path,
                branch: worktrees[j].branch->0,
                head: worktrees[j].head,
            })
        }),
    decreases worktrees.len(),
{
    let shorter = worktrees.drop_last();
    if j < shorter.len() {
        assert(shorter.take(j) =~= worktrees.take(j));
        lemma_candidates(shorter, j);
    } else {
        assert(worktrees.take(j) =~= shorter);
    }
}

/// Every worktree whose upstream is gone is classified by the proof for its own branch, commit and
/// path, or where there are no proofs as failed; every other one stays as it was classified.
pub proof fn law_proofs_go_to_their_worktrees(
    repository: Seq<u8>,
    inspection: RepositoryInspectionView,
    timeout: u64,
    replies: Seq<ReplyView>,
    at: int,
    result: RepositoryInspectionView,
    next: int,
    j: int,
)
    requires
        inspection.outcome is Inspected,
        integration::integrate_flow(repository, inspection, timeout, replies, at) == Flow::<
            RepositoryInspectionView,
        >::Done(result, next),
        0 <= j < inspection.worktrees.len(),
    ensures
        result.worktrees.len() == inspection.worktrees.len(),
        result.worktrees[j].path == inspection.worktrees[j].path,
        result.worktrees[j].head == inspection.worktrees[j].head,
        result.worktrees[j].branch == inspection.worktrees[j].branch,
        ({
            let before = inspection.worktrees[j];
            let after = result.worktrees[j];
            let candidates = integration::candidates_among(inspection.worktrees);
            if before.classification is UpstreamMissing && before.branch is Some {
                match integration::prove_flow(repository, candidates, timeout, replies, at) {
                    Flow::Done(Ok(proofs), _) => exists|k: int|
                        0 <= k < candidates.len() && (#[trigger] candidates[k]).path == before.path
                            && Some(candidates[k].branch) == before.branch && candidates[k].head
                            == before.head && classified_by(proofs[k], after.classification),
                    _ => after.classification is WorktrunkFailed && result.outcome
                        is IntegrationFailed,
                }
            } else {
                after == before
            }
        }),
{
    if integration::needs_proof(inspection.worktrees[j]) {
        lemma_candidates(inspection.worktrees, j);
    }
}

/// An inspection that did not succeed is left as it is, and Worktrunk is not asked about it.
pub proof fn law_failed_inspections_prove_nothing(
    repository: Seq<u8>,
    inspection: RepositoryInspectionView,
    timeout: u64,
    replies: Seq<ReplyView>,
    at: int,
)
    ensures
        !(inspection.outcome is Inspected) ==> integration::integrate_flow(
            repository,
            inspection,
            timeout,
            replies,
            at,
        ) == Flow::<RepositoryInspectionView>::Done(inspection, at),
{
}

} // verus!
