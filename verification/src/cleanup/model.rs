//! Rechecks and removals of a worktree that its surroundings tell truly about.
use crate::cleanup;
use crate::cleanup::{RemovalErrorView, RemovalResultView, RemovalRowView, SafetyRefusalView};
use crate::command;
use crate::command::{CommandLineView, CommandResultView, PathFailureView, ReplyView, RequestView};
use crate::filepath;
use crate::flow;
use crate::flow::Flow;
use crate::inspection;
use crate::inspection::{InventoryWorktreeView, WorktreeInspectionView};
use crate::inspection::model::runs_git;
use crate::output::ReasonCode;
use crate::text;
use vstd::prelude::*;
use vstd::utf8::*;

verus! {

/// What is true of a candidate when it is rechecked.
pub struct Facts {
    /// The worktrees of its repository.
    pub inventory: Seq<InventoryWorktreeView>,
    /// Where its path leads.
    pub canonical: Result<Seq<u8>, PathFailureView>,
    /// Whether a file that Git knows was changed or staged.
    pub changed: bool,
    /// Whether there is a file that was never added to Git.
    pub never_added: bool,
    /// The processes, and their current directories.
    pub processes: Seq<(u32, Seq<u8>)>,
}

/// Whether a line runs a program with Git's surroundings in order, and with a limit of time.
pub open spec fn runs(
    line: CommandLineView,
    program: Seq<char>,
    arguments: Seq<Seq<char>>,
    timeout: u64,
) -> bool {
    &&& line.program == program
    &&& line.directory is None
    &&& line.arguments =~= arguments
    &&& line.environment.contains(("GIT_OPTIONAL_LOCKS"@, "0"@))
    &&& line.environment.contains(("GIT_TERMINAL_PROMPT"@, "0"@))
    &&& line.removed.contains("GIT_DIR"@)
    &&& line.removed.contains("GIT_WORK_TREE"@)
    &&& line.timeout == Some(timeout)
}

/// What the list of current directories says of one process: its number, and the directory.
pub open spec fn process_entry(process: (u32, Seq<u8>)) -> Seq<u8> {
    (encode_utf8("p"@) + encode_utf8(text::decimal_text(process.0 as nat))).push(0) + seq![10u8]
        + encode_utf8("fcwd"@).push(0) + (encode_utf8("n"@) + process.1).push(0) + seq![10u8]
}

/// The list of current directories of processes.
pub open spec fn process_list(processes: Seq<(u32, Seq<u8>)>) -> Seq<u8>
    decreases processes.len(),
{
    if processes.len() == 0 {
        Seq::empty()
    } else {
        process_entry(processes[0]) + process_list(processes.skip(1))
    }
}

/// Whether a path can stand in a list of current directories.
pub open spec fn listable(path: Seq<u8>) -> bool {
    path.len() > 0 && !path.contains(0) && !path.contains(10)
}

/// Whether a process that counts is at work in a directory, or below it.
pub open spec fn used(
    processes: Seq<(u32, Seq<u8>)>,
    directory: Seq<u8>,
    ignored: Seq<u32>,
) -> bool {
    exists|i: int|
        0 <= i < processes.len() && filepath::path_within((#[trigger] processes[i]).1, directory)
            && !ignored.contains(processes[i].0)
}

/// Whether the surroundings of a candidate tell its facts: Git lists the worktrees; the path leads
/// where it leads; Git's status, with every file that was never added, prints something exactly
/// when there is something; and the processes are listed with their current directories.
pub open spec fn tells(
    world: spec_fn(RequestView) -> ReplyView,
    repository: Seq<u8>,
    path: Seq<u8>,
    timeout: u64,
    facts: Facts,
) -> bool {
    &&& forall|line: CommandLineView|
        runs_git(line, repository) && line.arguments =~= seq![
            "worktree"@,
            "list"@,
            "--porcelain"@,
            "-z"@,
        ] ==> ((#[trigger] world(RequestView::Run(line))) matches ReplyView::Command(
            CommandResultView::Exited { code, stdout, .. },
        ) && code == Some(0i32) && inspection::porcelain_worktrees(stdout) == Ok::<
            Seq<InventoryWorktreeView>,
            Seq<char>,
        >(facts.inventory))
    &&& world(RequestView::Canonicalize(path)) == ReplyView::Canonical(facts.canonical)
    &&& forall|line: CommandLineView|
        runs(
            line,
            "git"@,
            seq![
                "-C"@,
                text::lossy_text(path),
                "status"@,
                "--porcelain=v1"@,
                "-z"@,
                "--untracked-files=all"@,
            ],
            timeout,
        ) ==> ((#[trigger] world(RequestView::Run(line))) matches ReplyView::Command(
            CommandResultView::Exited { code, stdout, .. },
        ) && code == Some(0i32) && (stdout.len() > 0 <==> facts.changed
            || facts.never_added))
    &&& forall|line: CommandLineView|
        runs(
            line,
            "/usr/sbin/lsof"@,
            seq!["-n"@, "-w"@, "-a"@, "-d"@, "cwd"@, "-F0pn"@],
            timeout,
        ) ==> ((#[trigger] world(RequestView::ListCurrentDirectories(line)))
            matches ReplyView::CurrentDirectories(Some(CommandResultView::Exited { code, stdout, .. }))
            && code == Some(0i32) && stdout == process_list(facts.processes))
    &&& forall|i: int| 0 <= i < facts.processes.len() ==> listable((#[trigger] facts.processes[i]).1)
}

/// Whether the entry number `k` is the only one at the path of a candidate.
pub open spec fn only_entry(
    inventory: Seq<InventoryWorktreeView>,
    path: Seq<u8>,
    k: int,
) -> bool {
    0 <= k < inventory.len() && filepath::same_path(inventory[k].path, path) && forall|j: int|
        0 <= j < inventory.len() && j != k ==> !filepath::same_path(
            (#[trigger] inventory[j]).path,
            path,
        )
}

/// Whether the list of worktrees has nothing against the removal of a candidate: it has the
/// candidate once, and not as the first, as it was when it was classified, on a branch that no
/// other worktree is on, unlocked, with its directory in place.
pub open spec fn stands_unchanged(
    inventory: Seq<InventoryWorktreeView>,
    candidate: WorktreeInspectionView,
    k: int,
) -> bool {
    &&& only_entry(inventory, candidate.path, k)
    &&& k > 0
    &&& inventory[k].head == candidate.head
    &&& inventory[k].branch == candidate.branch
    &&& candidate.branch is Some
    &&& !inventory[k].detached
    &&& !inventory[k].locked
    &&& !inventory[k].prunable
    &&& !inventory[k].bare
    &&& forall|j: int|
        0 <= j < inventory.len() && j != k ==> (#[trigger] inventory[j]).branch != candidate.branch
}

proof fn lemma_entries(inventory: Seq<InventoryWorktreeView>, path: Seq<u8>)
    ensures
        cleanup::entries_at(inventory, path).len() == 0 <==> forall|j: int|
            0 <= j < inventory.len() ==> !filepath::same_path((#[trigger] inventory[j]).path, path),
        cleanup::entries_at(inventory, path).len() == 1 <==> exists|k: int|
            #[trigger] only_entry(inventory, path, k),
        forall|k: int| #[trigger]
            only_entry(inventory, path, k) ==> cleanup::entries_at(inventory, path)
                == seq![inventory[k]],
    decreases inventory.len(),
{
    let entries = cleanup::entries_at(inventory, path);
    if inventory.len() == 0 {
    } else {
        let shorter = inventory.drop_last();
        let last = (inventory.len() - 1) as int;
        let before = cleanup::entries_at(shorter, path);
        lemma_entries(shorter, path);
        assert forall|j: int| 0 <= j < last implies #[trigger] shorter[j] == inventory[j] by {}
        if filepath::same_path(inventory[last].path, path) {
            if before.len() == 0 {
                assert(only_entry(inventory, path, last)) by {
                    assert forall|j: int| 0 <= j < inventory.len() && j != last implies
                        !filepath::same_path((#[trigger] inventory[j]).path, path) by {
                        assert(!filepath::same_path(shorter[j].path, path));
                    }
                }
                assert(entries =~= seq![inventory[last]]);
            }
            assert forall|k: int| #[trigger] only_entry(inventory, path, k) implies k == last
                && before.len() == 0 by {
                assert(!(last != k && 0 <= last)) by {
                    if last != k {
                        assert(!filepath::same_path(inventory[last].path, path));
                    }
                }
                assert forall|j: int| 0 <= j < shorter.len() implies !filepath::same_path(
                    (#[trigger] shorter[j]).path,
                    path,
                ) by {
                    assert(!filepath::same_path(inventory[j].path, path));
                }
            }
            assert(entries.len() > 0);
        } else {
            assert(entries == before);
            assert forall|k: int| #[trigger] only_entry(inventory, path, k) implies only_entry(
                shorter,
                path,
                k,
            ) && entries == seq![inventory[k]] by {
                assert(k < last);
                assert forall|j: int| 0 <= j < shorter.len() && j != k implies
                    !filepath::same_path((#[trigger] shorter[j]).path, path) by {
                    assert(!filepath::same_path(inventory[j].path, path));
                }
            }
            assert forall|k: int| #[trigger] only_entry(shorter, path, k) implies only_entry(
                inventory,
                path,
                k,
            ) by {
                assert forall|j: int| 0 <= j < inventory.len() && j != k implies
                    !filepath::same_path((#[trigger] inventory[j]).path, path) by {
                    if j < last {
                        assert(!filepath::same_path(shorter[j].path, path));
                    }
                }
            }
            if exists|k: int| #[trigger] only_entry(shorter, path, k) {
                let k = choose|k: int| #[trigger] only_entry(shorter, path, k);
                assert(only_entry(inventory, path, k));
            }
            if exists|k: int| #[trigger] only_entry(inventory, path, k) {
                let k = choose|k: int| #[trigger] only_entry(inventory, path, k);
                assert(only_entry(shorter, path, k));
            }
            if before.len() == 0 {
                assert forall|j: int| 0 <= j < inventory.len() implies !filepath::same_path(
                    (#[trigger] inventory[j]).path,
                    path,
                ) by {
                    if j < last {
                        assert(!filepath::same_path(shorter[j].path, path));
                    }
                }
            } else {
                let j = choose|j: int|
                    0 <= j < shorter.len() && filepath::same_path(
                        (#[trigger] shorter[j]).path,
                        path,
                    );
                assert(filepath::same_path(inventory[j].path, path));
            }
        }
    }
}

/// Whether a branch is that of the entry number `k` only.
spec fn only_branch(
    inventory: Seq<InventoryWorktreeView>,
    branch: Option<Seq<char>>,
    k: int,
) -> bool {
    0 <= k < inventory.len() && inventory[k].branch == branch && forall|j: int|
        0 <= j < inventory.len() && j != k ==> (#[trigger] inventory[j]).branch != branch
}

proof fn lemma_branches(inventory: Seq<InventoryWorktreeView>, branch: Option<Seq<char>>)
    ensures
        cleanup::count_on_branch(inventory, branch) == 0 <==> forall|j: int|
            0 <= j < inventory.len() ==> (#[trigger] inventory[j]).branch != branch,
        forall|k: int|
            0 <= k < inventory.len() && (#[trigger] inventory[k]).branch == branch ==> (
            cleanup::count_on_branch(inventory, branch) == 1 <==> only_branch(
                inventory,
                branch,
                k,
            )),
    decreases inventory.len(),
{
    if inventory.len() > 0 {
        let shorter = inventory.drop_last();
        let last = (inventory.len() - 1) as int;
        lemma_branches(shorter, branch);
        assert forall|j: int| 0 <= j < last implies #[trigger] shorter[j] == inventory[j] by {}
        let count = cleanup::count_on_branch(inventory, branch);
        let before = cleanup::count_on_branch(shorter, branch);
        if before == 0 {
            assert forall|j: int| 0 <= j < last implies (#[trigger] inventory[j]).branch
                != branch by {
                assert(shorter[j].branch != branch);
            }
        } else {
            let j = choose|j: int| 0 <= j < shorter.len() && (#[trigger] shorter[j]).branch == branch;
            assert(inventory[j].branch == branch);
        }
        assert forall|k: int|
            0 <= k < inventory.len() && (#[trigger] inventory[k]).branch == branch implies (count
            == 1 <==> only_branch(inventory, branch, k)) by {
            if k < last {
                assert(shorter[k].branch == branch);
                if inventory[last].branch == branch {
                    assert(before > 0) by {
                        if before == 0 {
                            assert(shorter[k].branch != branch);
                        }
                    }
                    assert(!only_branch(inventory, branch, k));
                } else {
                    if only_branch(shorter, branch, k) {
                        assert forall|j: int| 0 <= j < inventory.len() && j != k implies (
                        #[trigger] inventory[j]).branch != branch by {
                            if j < last {
                                assert(shorter[j].branch != branch);
                            }
                        }
                    }
                    if only_branch(inventory, branch, k) {
                        assert forall|j: int| 0 <= j < shorter.len() && j != k implies (
                        #[trigger] shorter[j]).branch != branch by {
                            assert(inventory[j].branch != branch);
                        }
                    }
                }
            }
        }
    }
}

/// The list of worktrees has nothing against a removal exactly when the candidate stands there
/// unchanged and alone.
proof fn lemma_safely_listed(
    inventory: Seq<InventoryWorktreeView>,
    candidate: WorktreeInspectionView,
)
    ensures
        cleanup::inventory_refusal(inventory, candidate) is None <==> exists|k: int|
            #[trigger] stands_unchanged(inventory, candidate, k),
{
    lemma_entries(inventory, candidate.path);
    let entries = cleanup::entries_at(inventory, candidate.path);
    if exists|k: int| #[trigger] only_entry(inventory, candidate.path, k) {
        let k = choose|k: int| #[trigger] only_entry(inventory, candidate.path, k);
        assert(entries[0] == inventory[k]);
        lemma_branches(inventory, inventory[k].branch);
        assert(filepath::same_path(inventory[0].path, inventory[k].path) <==> k == 0) by {
            if k != 0 {
                assert(!filepath::same_path(inventory[0].path, candidate.path));
            }
        }
        assert forall|other: int| #[trigger] stands_unchanged(
            inventory,
            candidate,
            other,
        ) implies other == k by {
            if other != k {
                assert(!filepath::same_path(inventory[other].path, candidate.path));
            }
        }
        if cleanup::inventory_refusal(inventory, candidate) is None {
            assert(only_branch(inventory, inventory[k].branch, k));
            assert(stands_unchanged(inventory, candidate, k));
        }
        if exists|other: int| #[trigger] stands_unchanged(inventory, candidate, other) {
            assert(stands_unchanged(inventory, candidate, k));
            assert(only_branch(inventory, inventory[k].branch, k));
        }
    } else {
        assert forall|k: int| !#[trigger] stands_unchanged(inventory, candidate, k) by {
            if stands_unchanged(inventory, candidate, k) {
                assert(only_entry(inventory, candidate.path, k));
            }
        }
    }
}

proof fn lemma_marks()
    ensures
        encode_utf8("p"@) == seq![112u8],
        encode_utf8("n"@) == seq![110u8],
        encode_utf8("fcwd"@) == seq![102u8, 99u8, 119u8, 100u8],
{
    reveal_strlit("p");
    reveal_strlit("n");
    reveal_strlit("fcwd");
    is_ascii_chars_encode_utf8("p"@);
    is_ascii_chars_encode_utf8("n"@);
    is_ascii_chars_encode_utf8("fcwd"@);
    assert("p"@[0] == 'p');
    assert("n"@[0] == 'n');
    assert("fcwd"@[0] == 'f' && "fcwd"@[1] == 'c' && "fcwd"@[2] == 'w' && "fcwd"@[3] == 'd');
    assert(encode_utf8("p"@) =~= seq![112u8]);
    assert(encode_utf8("n"@) =~= seq![110u8]);
    assert(encode_utf8("fcwd"@) =~= seq![102u8, 99u8, 119u8, 100u8]);
}

/// The field that names a process is read as its number.
proof fn lemma_process_field(process: u32)
    ensures
        ({
            let digits = encode_utf8(text::decimal_text(process as nat));
            let field = encode_utf8("p"@) + digits;
            &&& text::bytes_after(field, "p"@) == Some(digits)
            &&& cleanup::field_process(field) == Some(process as nat)
            &&& forall|i: int|
                0 <= i < field.len() ==> !text::separates(#[trigger] field[i], 0, 10)
        }),
{
    lemma_marks();
    let spelled = text::decimal_text(process as nat);
    let digits = encode_utf8(spelled);
    let field = encode_utf8("p"@) + digits;
    text::lemma_decimal_reads_back(process as nat);
    assert(is_ascii_chars(spelled));
    is_ascii_chars_encode_utf8(spelled);
    encode_utf8_valid_utf8(spelled);
    encode_utf8_decode_utf8(spelled);
    assert(field.skip(1) =~= digits);
    assert(encode_utf8("p"@).is_prefix_of(field)) by {
        assert(field.take(1) =~= seq![112u8]);
    }
    assert(text::parse_unsigned(spelled, u32::MAX as nat) == Some(process as nat));
    assert forall|i: int| 0 <= i < field.len() implies !text::separates(
        #[trigger] field[i],
        0,
        10,
    ) by {
        if i > 0 {
            assert(field[i] == digits[i - 1]);
            assert('0' <= spelled[i - 1] <= '9');
        }
    }
}

/// A list of current directories tells of a process in a directory exactly when there is one that
/// counts, whichever process was named before.
proof fn lemma_process_list(
    processes: Seq<(u32, Seq<u8>)>,
    before: Option<nat>,
    directory: Seq<u8>,
    ignored: Seq<u32>,
)
    requires
        forall|i: int| 0 <= i < processes.len() ==> listable((#[trigger] processes[i]).1),
    ensures
        cleanup::directory_listed(
            text::split_bytes(process_list(processes), 0, 10),
            before,
            directory,
            ignored,
        ) == Ok::<bool, Seq<char>>(used(processes, directory, ignored)),
    decreases processes.len(),
{
    lemma_marks();
    let empty = Seq::<u8>::empty();
    if processes.len() == 0 {
        let fields = text::split_bytes(process_list(processes), 0, 10);
        assert(fields =~= seq![empty]);
        assert(fields.skip(1) =~= Seq::<Seq<u8>>::empty());
        reveal_with_fuel(cleanup::directory_listed, 3);
    } else {
        let (number, path) = processes[0];
        let others = processes.skip(1);
        let rest = process_list(others);
        let named = encode_utf8("p"@) + encode_utf8(text::decimal_text(number as nat));
        let kind = encode_utf8("fcwd"@);
        let shown = encode_utf8("n"@) + path;
        assert forall|i: int| 0 <= i < others.len() implies listable(
            (#[trigger] others[i]).1,
        ) by {
            assert(others[i] == processes[i + 1]);
        }
        lemma_process_list(others, Some(number as nat), directory, ignored);
        lemma_process_field(number);
        assert forall|i: int| 0 <= i < shown.len() implies !text::separates(
            #[trigger] shown[i],
            0,
            10,
        ) by {
            if i > 0 {
                assert(shown[i] == path[i - 1]);
                assert(path.contains(path[i - 1]));
            }
        }
        let last = empty.push(10u8) + rest;
        let third = shown.push(0) + last;
        let second = kind.push(0) + third;
        let first = empty.push(10u8) + second;
        let whole = named.push(0) + first;
        assert(process_list(processes) =~= whole);
        text::lemma_split_first(empty, 10, rest, 0, 10);
        text::lemma_split_first(shown, 0, last, 0, 10);
        text::lemma_split_first(kind, 0, third, 0, 10);
        text::lemma_split_first(empty, 10, second, 0, 10);
        text::lemma_split_first(named, 0, first, 0, 10);
        let fields = text::split_bytes(rest, 0, 10);
        let fields1 = seq![empty] + fields;
        let fields2 = seq![shown] + fields1;
        let fields3 = seq![kind] + fields2;
        let fields4 = seq![empty] + fields3;
        let fields5 = seq![named] + fields4;
        assert(text::split_bytes(whole, 0, 10) == fields5);
        assert(fields5.skip(1) =~= fields4);
        assert(fields4.skip(1) =~= fields3);
        assert(fields3.skip(1) =~= fields2);
        assert(fields2.skip(1) =~= fields1);
        assert(fields1.skip(1) =~= fields);
        let process = Some(number as nat);
        assert(cleanup::directory_listed(fields5, before, directory, ignored)
            == cleanup::directory_listed(fields4, process, directory, ignored));
        assert(text::bytes_after(empty, "p"@) is None);
        assert(text::bytes_after(empty, "n"@) is None);
        assert(cleanup::directory_listed(fields4, process, directory, ignored)
            == cleanup::directory_listed(fields3, process, directory, ignored));
        text::lemma_starts_otherwise(encode_utf8("p"@), kind);
        text::lemma_starts_otherwise(encode_utf8("n"@), kind);
        assert(text::bytes_after(kind, "p"@) is None);
        assert(text::bytes_after(kind, "n"@) is None);
        assert(cleanup::directory_listed(fields3, process, directory, ignored)
            == cleanup::directory_listed(fields2, process, directory, ignored));
        assert(text::bytes_after(shown, "p"@) is None) by {
            text::lemma_starts_otherwise(encode_utf8("p"@), shown);
        }
        assert(text::bytes_after(shown, "n"@) == Some(path)) by {
            assert(shown.skip(1) =~= path);
            assert(shown.take(1) =~= seq![110u8]);
            assert(encode_utf8("n"@).is_prefix_of(shown));
        }
        assert(cleanup::directory_listed(fields1, process, directory, ignored)
            == cleanup::directory_listed(fields, process, directory, ignored));
        assert(cleanup::is_ignored(process, ignored) <==> ignored.contains(number));
        if filepath::path_within(path, directory) && !ignored.contains(number) {
            assert(processes[0] == (number, path));
            assert(used(processes, directory, ignored));
        } else {
            assert(used(processes, directory, ignored) <==> used(others, directory, ignored)) by {
                if used(others, directory, ignored) {
                    let i = choose|i: int|
                        0 <= i < others.len() && filepath::path_within(
                            (#[trigger] others[i]).1,
                            directory,
                        ) && !ignored.contains(others[i].0);
                    assert(others[i] == processes[i + 1]);
                    assert(used(processes, directory, ignored));
                }
                if used(processes, directory, ignored) {
                    let i = choose|i: int|
                        0 <= i < processes.len() && filepath::path_within(
                            (#[trigger] processes[i]).1,
                            directory,
                        ) && !ignored.contains(processes[i].0);
                    assert(i > 0);
                    assert(others[i - 1] == processes[i]);
                    assert(used(others, directory, ignored));
                }
            }
        }
    }
}

/// A worktree is in use, as far as a list of current directories tells it, exactly when a process
/// that counts is at work in it or below it.
pub proof fn law_worktrees_are_in_use_where_processes_are(
    processes: Seq<(u32, Seq<u8>)>,
    worktree: Seq<u8>,
    ignored: Seq<u32>,
)
    requires
        forall|i: int| 0 <= i < processes.len() ==> listable((#[trigger] processes[i]).1),
    ensures
        cleanup::listed_in_use(process_list(processes), worktree, ignored) == Ok::<
            bool,
            Seq<char>,
        >(used(processes, worktree, ignored)),
{
    lemma_process_list(processes, None, worktree, ignored);
}

/// Whether nothing speaks against the removal of a candidate.
pub open spec fn safe(
    facts: Facts,
    candidate: WorktreeInspectionView,
    check_processes: bool,
    ignored: Seq<u32>,
) -> bool {
    &&& exists|k: int| #[trigger] stands_unchanged(facts.inventory, candidate, k)
    &&& facts.canonical matches Ok(canonical) && filepath::same_path(canonical, candidate.path)
    &&& !facts.changed
    &&& !facts.never_added
    &&& check_processes ==> !used(facts.processes, facts.canonical->Ok_0, ignored)
}

/// The recheck of a candidate.
spec fn checking(
    repository: Seq<u8>,
    candidate: WorktreeInspectionView,
    check_processes: bool,
    timeout: u64,
    ignored: Seq<u32>,
) -> spec_fn(Seq<ReplyView>) -> Flow<Result<(), SafetyRefusalView>> {
    |replies: Seq<ReplyView>|
        cleanup::check_flow(
            repository,
            candidate,
            check_processes,
            timeout,
            ignored,
            replies,
            0,
        )
}

/// The lines that a recheck runs are run as they should be.
proof fn lemma_check_lines(repository: Seq<u8>, path: Seq<u8>, timeout: u64)
    ensures
        runs_git(inspection::list_command(repository, timeout), repository),
        runs(
            cleanup::status_command(path, timeout),
            "git"@,
            seq![
                "-C"@,
                text::lossy_text(path),
                "status"@,
                "--porcelain=v1"@,
                "-z"@,
                "--untracked-files=all"@,
            ],
            timeout,
        ),
        runs(
            cleanup::lsof_command(timeout),
            "/usr/sbin/lsof"@,
            seq!["-n"@, "-w"@, "-a"@, "-d"@, "cwd"@, "-F0pn"@],
            timeout,
        ),
{
    let list = inspection::list_command(repository, timeout);
    assert(list.removed[0] == "GIT_DIR"@ && list.removed[1] == "GIT_WORK_TREE"@);
    assert(list.environment[0] == ("GIT_OPTIONAL_LOCKS"@, "0"@));
    let status = cleanup::status_command(path, timeout);
    assert(status.removed[0] == "GIT_DIR"@ && status.removed[1] == "GIT_WORK_TREE"@);
    assert(status.environment[0] == ("GIT_OPTIONAL_LOCKS"@, "0"@));
    assert(status.environment[1] == ("GIT_TERMINAL_PROMPT"@, "0"@));
    let lsof = cleanup::lsof_command(timeout);
    assert(lsof.removed[0] == "GIT_DIR"@ && lsof.removed[1] == "GIT_WORK_TREE"@);
    assert(lsof.environment[0] == ("GIT_OPTIONAL_LOCKS"@, "0"@));
    assert(lsof.environment[1] == ("GIT_TERMINAL_PROMPT"@, "0"@));
}

/// The recheck of a candidate whose surroundings tell its facts passes exactly when nothing speaks
/// against the removal: in particular not when there is a file that was never added to Git.
pub proof fn law_rechecks_pass_exactly_what_is_safe(
    world: spec_fn(RequestView) -> ReplyView,
    repository: Seq<u8>,
    candidate: WorktreeInspectionView,
    check_processes: bool,
    timeout: u64,
    ignored: Seq<u32>,
    facts: Facts,
)
    requires
        tells(world, repository, candidate.path, timeout, facts),
    ensures
        flow::answered(
            |replies: Seq<ReplyView>|
                cleanup::check_flow(
                    repository,
                    candidate,
                    check_processes,
                    timeout,
                    ignored,
                    replies,
                    0,
                ),
            world,
            Seq::empty(),
            4,
        ) matches Some(result) && (result is Ok <==> safe(
            facts,
            candidate,
            check_processes,
            ignored,
        )) && (result matches Err(refusal) ==> refused_for(
            facts,
            candidate,
            check_processes,
            ignored,
            refusal,
        )),
{
    let work = checking(repository, candidate, check_processes, timeout, ignored);
    lemma_check_lines(repository, candidate.path, timeout);
    lemma_safely_listed(facts.inventory, candidate);
    lemma_inventory_reasons(facts.inventory, candidate);
    let asked0 = RequestView::Run(inspection::list_command(repository, timeout));
    let asked1 = RequestView::Canonicalize(candidate.path);
    let asked2 = RequestView::Run(cleanup::status_command(candidate.path, timeout));
    let asked3 = RequestView::ListCurrentDirectories(cleanup::lsof_command(timeout));
    let replies0 = Seq::<ReplyView>::empty();
    let replies1 = replies0.push(world(asked0));
    let replies2 = replies1.push(world(asked1));
    let replies3 = replies2.push(world(asked2));
    let replies4 = replies3.push(world(asked3));
    assert(work(replies0) == Flow::<Result<(), SafetyRefusalView>>::Ask(asked0));
    flow::lemma_answered_asks(work, world, replies0, 4, asked0);
    if cleanup::inventory_refusal(facts.inventory, candidate) is None {
        assert(work(replies1) == Flow::<Result<(), SafetyRefusalView>>::Ask(asked1));
        flow::lemma_answered_asks(work, world, replies1, 3, asked1);
        if facts.canonical matches Ok(canonical) && filepath::same_path(canonical, candidate.path) {
            assert(work(replies2) == Flow::<Result<(), SafetyRefusalView>>::Ask(asked2));
            flow::lemma_answered_asks(work, world, replies2, 2, asked2);
            if !facts.changed && !facts.never_added && check_processes {
                assert(work(replies3) == Flow::<Result<(), SafetyRefusalView>>::Ask(asked3));
                flow::lemma_answered_asks(work, world, replies3, 1, asked3);
                lemma_process_list(facts.processes, None, facts.canonical->Ok_0, ignored);
            }
        }
    }
}

/// Whether a refusal names what speaks against the removal, the list of worktrees first, then where
/// the path leads, then what Git has to say of the files, then the processes.
pub open spec fn refused_for(
    facts: Facts,
    candidate: WorktreeInspectionView,
    check_processes: bool,
    ignored: Seq<u32>,
    refusal: SafetyRefusalView,
) -> bool {
    let listed = exists|k: int| #[trigger] stands_unchanged(facts.inventory, candidate, k);
    let placed = facts.canonical matches Ok(canonical) && filepath::same_path(
        canonical,
        candidate.path,
    );
    let clean = !facts.changed && !facts.never_added;
    &&& !listed ==> listing_refused_for(facts.inventory, candidate, refusal)
    &&& listed && facts.canonical is Err ==> refusal.reason_code is WorktreeMissing
        && !refusal.operational_failure
    &&& listed && facts.canonical is Ok && !placed ==> refusal.reason_code is WorktreeChanged
        && !refusal.operational_failure
    &&& listed && placed && !clean ==> refusal.reason_code is DirtyWorktree && refusal.message
        == "the worktree has staged, modified, or untracked files"@ && !refusal.operational_failure
    &&& listed && placed && clean ==> refusal.reason_code is ProcessUsingWorktree
        && !refusal.operational_failure
}

/// Whether a refusal names what the list of worktrees has against the removal.
pub open spec fn listing_refused_for(
    inventory: Seq<InventoryWorktreeView>,
    candidate: WorktreeInspectionView,
    refusal: SafetyRefusalView,
) -> bool {
    &&& (forall|j: int|
        0 <= j < inventory.len() ==> !filepath::same_path(
            (#[trigger] inventory[j]).path,
            candidate.path,
        )) ==> refusal.reason_code is WorktreeMissing && !refusal.operational_failure
    &&& (exists|i: int, j: int|
        0 <= i < j < inventory.len() && filepath::same_path(
            (#[trigger] inventory[i]).path,
            candidate.path,
        ) && filepath::same_path((#[trigger] inventory[j]).path, candidate.path))
        ==> refusal.reason_code is SafetyInspectionFailed && refusal.operational_failure
    &&& forall|k: int| #[trigger]
        only_entry(inventory, candidate.path, k) ==> {
            let now = inventory[k];
            let attached = !now.detached && now.branch is Some;
            &&& !refusal.operational_failure
            &&& refusal.reason_code is MainWorktree <==> k == 0
            &&& refusal.reason_code is LockedWorktree <==> k > 0 && now.locked
            &&& refusal.reason_code is DetachedWorktree <==> k > 0 && !now.locked && !attached
            &&& refusal.reason_code is InvalidGitMetadata <==> k > 0 && !now.locked && attached && (
            now.prunable || now.bare)
            &&& refusal.reason_code is WorktreeChanged <==> k > 0 && !now.locked && attached
                && !now.prunable && !now.bare && (now.head != candidate.head || now.branch
                != candidate.branch)
            &&& refusal.reason_code is CheckedOutMultipleTimes <==> k > 0 && !now.locked && attached
                && !now.prunable && !now.bare && now.head == candidate.head && now.branch
                == candidate.branch
        }
}

proof fn lemma_inventory_reasons(
    inventory: Seq<InventoryWorktreeView>,
    candidate: WorktreeInspectionView,
)
    ensures
        cleanup::inventory_refusal(inventory, candidate) matches Some(refusal)
            ==> listing_refused_for(inventory, candidate, refusal),
{
    if let Some(refusal) = cleanup::inventory_refusal(inventory, candidate) {
        let path = candidate.path;
        lemma_entries(inventory, path);
        assert forall|k: int| #[trigger] only_entry(inventory, path, k) implies (filepath::same_path(
            inventory[0].path,
            inventory[k].path,
        ) <==> k == 0) by {
            if k != 0 {
                assert(!filepath::same_path(inventory[0].path, path));
            }
        }
        if exists|i: int, j: int|
            0 <= i < j < inventory.len() && filepath::same_path(
                (#[trigger] inventory[i]).path,
                path,
            ) && filepath::same_path((#[trigger] inventory[j]).path, path) {
            let (i, j) = choose|i: int, j: int|
                0 <= i < j < inventory.len() && filepath::same_path(
                    (#[trigger] inventory[i]).path,
                    path,
                ) && filepath::same_path((#[trigger] inventory[j]).path, path);
            assert forall|k: int| !#[trigger] only_entry(inventory, path, k) by {
                if k == i {
                    assert(filepath::same_path(inventory[j].path, path));
                } else {
                    assert(filepath::same_path(inventory[i].path, path));
                }
            }
        }
    }
}

/// The command that removes a worktree, as it should be: in the foreground, confirmed, with nothing
/// that forces it, ends processes, or deletes an unmerged branch.
pub open spec fn removes_plainly(
    line: CommandLineView,
    repository: Seq<u8>,
    worktree: Seq<u8>,
    timeout: u64,
) -> bool {
    runs(
        line,
        "wt"@,
        seq![
            "-C"@,
            text::lossy_text(repository),
            "remove"@,
            "--foreground"@,
            "--format=json"@,
            "--yes"@,
            text::lossy_text(worktree),
        ],
        timeout,
    )
}

/// A removal runs one command, which is as it should be, and reads what it prints; it succeeds
/// exactly when the command does and the document has one row, of the worktree at its path, with a
/// branch whose deletion was not put off. What it tells of the branch is what the row tells.
pub proof fn law_removals_are_confirmed(
    world: spec_fn(RequestView) -> ReplyView,
    repository: Seq<u8>,
    worktree: Seq<u8>,
    timeout: u64,
    code: Option<i32>,
    stdout: Seq<u8>,
    stderr: Seq<u8>,
    rows: Seq<RemovalRowView>,
)
    requires
        forall|asked: CommandLineView|
            removes_plainly(asked, repository, worktree, timeout) ==> #[trigger] world(
                RequestView::Run(asked),
            ) == ReplyView::Command(CommandResultView::Exited { code, stdout, stderr }),
        world(RequestView::DecodeRemoval(stdout)) == ReplyView::Removal(Ok(rows)),
    ensures
        cleanup::remove_flow(repository, worktree, timeout, Seq::empty(), 0) matches Flow::Ask(
            RequestView::Run(asked),
        ) && removes_plainly(asked, repository, worktree, timeout),
        flow::answered(
            |replies: Seq<ReplyView>|
                cleanup::remove_flow(repository, worktree, timeout, replies, 0),
            world,
            Seq::empty(),
            2,
        ) matches Some(result) && (result is Ok <==> code == Some(0i32) && rows.len() == 1
            && rows[0].kind == "worktree"@ && filepath::same_path(rows[0].path, worktree)
            && rows[0].branch is Some && !(rows[0].branch_outcome is Deferred)) && (
        result matches Ok(removed) ==> removed.branch_outcome == rows[0].branch_outcome
            && removed.branch_checked_out_at == rows[0].branch_checked_out_at),
{
    let removal = cleanup::remove_command(repository, worktree, timeout);
    assert(removal.removed[0] == "GIT_DIR"@ && removal.removed[1] == "GIT_WORK_TREE"@);
    assert(removal.environment[0] == ("GIT_OPTIONAL_LOCKS"@, "0"@));
    assert(removal.environment[1] == ("GIT_TERMINAL_PROMPT"@, "0"@));
    assert(removes_plainly(removal, repository, worktree, timeout));
    let work = |replies: Seq<ReplyView>|
        cleanup::remove_flow(repository, worktree, timeout, replies, 0);
    let asked0 = RequestView::Run(removal);
    let asked1 = RequestView::DecodeRemoval(stdout);
    let replies0 = Seq::<ReplyView>::empty();
    let replies1 = replies0.push(world(asked0));
    let replies2 = replies1.push(world(asked1));
    assert(work(replies0) == Flow::<Result<RemovalResultView, RemovalErrorView>>::Ask(asked0));
    flow::lemma_answered_asks(work, world, replies0, 2, asked0);
    if code == Some(0i32) {
        assert(work(replies1) == Flow::<Result<RemovalResultView, RemovalErrorView>>::Ask(asked1));
        flow::lemma_answered_asks(work, world, replies1, 1, asked1);
    }
}

/// A removal whose command cannot be run, runs too long or fails, or whose document cannot be read,
/// is an error that tells which.
pub proof fn law_failed_removals_are_told_apart(
    repository: Seq<u8>,
    worktree: Seq<u8>,
    timeout: u64,
    result: CommandResultView,
    complaint: Seq<char>,
)
    ensures
        ({
            let ended = cleanup::remove_flow(
                repository,
                worktree,
                timeout,
                seq![ReplyView::Command(result), ReplyView::Removal(Err(complaint))],
                0,
            );
            match result {
                CommandResultView::Failed(error) => ended matches Flow::Done(
                    Err(RemovalErrorView::Unavailable(told)),
                    _,
                ) && told == error,
                CommandResultView::TimedOut => ended matches Flow::Done(
                    Err(RemovalErrorView::TimedOut),
                    _,
                ),
                CommandResultView::Exited { code, .. } => if code == Some(0i32) {
                    ended matches Flow::Done(Err(RemovalErrorView::MalformedJson(told)), _) && told
                        == complaint
                } else {
                    ended matches Flow::Done(Err(RemovalErrorView::Command(_)), _)
                },
            }
        }),
{
}

/// A recheck fails closed: where the list of worktrees, the status or the list of processes cannot
/// be had, the candidate is refused, and the refusal tells of a failure.
pub proof fn law_rechecks_fail_closed(
    repository: Seq<u8>,
    candidate: WorktreeInspectionView,
    check_processes: bool,
    timeout: u64,
    ignored: Seq<u32>,
    replies: Seq<ReplyView>,
    refusal: SafetyRefusalView,
    next: int,
)
    requires
        cleanup::check_flow(
            repository,
            candidate,
            check_processes,
            timeout,
            ignored,
            replies,
            0,
        ) == Flow::<Result<(), SafetyRefusalView>>::Done(Err(refusal), next),
    ensures
        next == 1 && !succeeds(replies[0]) ==> refusal.operational_failure && refusal.reason_code
            is SafetyInspectionFailed,
        next == 3 && !succeeds(replies[2]) ==> refusal.operational_failure && refusal.reason_code
            is SafetyInspectionFailed,
        next == 4 && !(replies[3] matches ReplyView::CurrentDirectories(Some(result)) && succeeds(
            ReplyView::Command(result),
        )) ==> refusal.operational_failure && refusal.reason_code is SafetyInspectionFailed,
        1 <= next <= 4,
{
}

/// Whether a reply tells that a command succeeded.
pub open spec fn succeeds(reply: ReplyView) -> bool {
    reply matches ReplyView::Command(CommandResultView::Exited { code, .. }) && code == Some(0i32)
}

/// The replies that the recheck of a candidate gets, in order.
pub open spec fn check_replies(
    world: spec_fn(RequestView) -> ReplyView,
    repository: Seq<u8>,
    path: Seq<u8>,
    check_processes: bool,
    timeout: u64,
) -> Seq<ReplyView> {
    let first = seq![
        world(RequestView::Run(inspection::list_command(repository, timeout))),
        world(RequestView::Canonicalize(path)),
        world(RequestView::Run(cleanup::status_command(path, timeout))),
    ];
    if check_processes {
        first.push(world(RequestView::ListCurrentDirectories(cleanup::lsof_command(timeout))))
    } else {
        first
    }
}

/// The recheck of a candidate that nothing speaks against asks for its replies in order, and passes.
pub(crate) proof fn lemma_check_passes(
    world: spec_fn(RequestView) -> ReplyView,
    repository: Seq<u8>,
    candidate: WorktreeInspectionView,
    check_processes: bool,
    timeout: u64,
    ignored: Seq<u32>,
    facts: Facts,
    replies: Seq<ReplyView>,
    at: int,
)
    requires
        tells(world, repository, candidate.path, timeout, facts),
        safe(facts, candidate, check_processes, ignored),
        0 <= at <= replies.len(),
        ({
            let told = check_replies(
                world,
                repository,
                candidate.path,
                check_processes,
                timeout,
            );
            forall|j: int|
                0 <= j < told.len() && at + j < replies.len() ==> #[trigger] replies[at + j]
                    == told[j]
        }),
    ensures
        ({
            let told = check_replies(
                world,
                repository,
                candidate.path,
                check_processes,
                timeout,
            );
            let known = replies.len() - at;
            let step = cleanup::check_flow(
                repository,
                candidate,
                check_processes,
                timeout,
                ignored,
                replies,
                at,
            );
            &&& known < told.len() ==> (step matches Flow::Ask(request) && world(request)
                == told[known])
            &&& known >= told.len() ==> step == Flow::<Result<(), SafetyRefusalView>>::Done(
                Ok(()),
                at + told.len(),
            )
        }),
{
    let told = check_replies(world, repository, candidate.path, check_processes, timeout);
    lemma_check_lines(repository, candidate.path, timeout);
    lemma_safely_listed(facts.inventory, candidate);
    if at < replies.len() {
        assert(replies[at + 0] == told[0]);
    }
    if at + 1 < replies.len() {
        assert(replies[at + 1] == told[1]);
    }
    if at + 2 < replies.len() {
        assert(replies[at + 2] == told[2]);
    }
    if check_processes {
        lemma_process_list(facts.processes, None, facts.canonical->Ok_0, ignored);
        if at + 3 < replies.len() {
            assert(replies[at + 3] == told[3]);
        }
    }
}

} // verus!
