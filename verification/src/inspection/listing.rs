//! What Git prints of worktrees, and what is read of it.
use crate::command::{CommandResultView, ReplyView};
use crate::flow::Flow;
use crate::inspection;
use crate::inspection::laws;
use crate::inspection::{InventoryWorktreeView, RecordFactsView, RepositoryInspectionView};
use crate::text;
use vstd::prelude::*;
use vstd::utf8::*;

verus! {

/// A worktree as Git lists it: with the reasons, if any, for which it is locked or prunable.
pub struct ListedWorktree {
    pub worktree: InventoryWorktreeView,
    pub lock_reason: Seq<u8>,
    pub prune_reason: Seq<u8>,
}

/// A word, alone or with a reason behind it.
pub open spec fn with_reason(word: Seq<char>, reason: Seq<u8>) -> Seq<u8> {
    if reason.len() == 0 {
        encode_utf8(word)
    } else {
        encode_utf8(word).push(32) + reason
    }
}

/// The fields of a worktree in Git's list.
pub open spec fn listed_fields(listed: ListedWorktree) -> Seq<Seq<u8>> {
    let worktree = listed.worktree;
    let head = seq![
        encode_utf8("worktree "@) + worktree.path,
        encode_utf8("HEAD "@) + encode_utf8(worktree.head),
    ];
    let bare = if worktree.bare {
        head.push(encode_utf8("bare"@))
    } else {
        head
    };
    let branch = match worktree.branch {
        Some(branch) => bare.push(encode_utf8("branch "@) + encode_utf8(branch)),
        None => bare,
    };
    let detached = if worktree.detached {
        branch.push(encode_utf8("detached"@))
    } else {
        branch
    };
    let locked = if worktree.locked {
        detached.push(with_reason("locked"@, listed.lock_reason))
    } else {
        detached
    };
    if worktree.prunable {
        locked.push(with_reason("prunable"@, listed.prune_reason))
    } else {
        locked
    }
}

/// Fields with NUL behind each of them.
pub open spec fn ended_fields(fields: Seq<Seq<u8>>) -> Seq<u8>
    decreases fields.len(),
{
    if fields.len() == 0 {
        Seq::empty()
    } else {
        fields[0].push(0) + ended_fields(fields.skip(1))
    }
}

/// What Git prints of a worktree: its fields, and NUL behind them.
pub open spec fn listed_record(listed: ListedWorktree) -> Seq<u8> {
    ended_fields(listed_fields(listed)).push(0)
}

/// What Git prints of worktrees.
pub open spec fn printed_list(listed: Seq<ListedWorktree>) -> Seq<u8>
    decreases listed.len(),
{
    if listed.len() == 0 {
        Seq::empty()
    } else {
        printed_list(listed.drop_last()) + listed_record(listed.last())
    }
}

/// Whether bytes can stand in a field.
pub open spec fn in_field(bytes: Seq<u8>) -> bool {
    forall|i: int| 0 <= i < bytes.len() ==> #[trigger] bytes[i] != 0
}

/// Whether a text is some ASCII without NUL.
pub open spec fn plain_ascii(value: Seq<char>) -> bool {
    value.len() > 0 && forall|i: int| 0 <= i < value.len() ==> '\u{1}' <= #[trigger] value[i]
        <= '\u{7f}'
}

/// Whether a worktree can be listed: it has a path and a commit, and is not both detached and on a
/// branch.
pub open spec fn listable(listed: ListedWorktree) -> bool {
    let worktree = listed.worktree;
    &&& worktree.path.len() > 0
    &&& in_field(worktree.path)
    &&& plain_ascii(worktree.head)
    &&& worktree.branch matches Some(branch) ==> plain_ascii(branch) && !worktree.detached
    &&& in_field(listed.lock_reason)
    &&& in_field(listed.prune_reason)
}

proof fn lemma_ended(fields: Seq<Seq<u8>>, rest: Seq<u8>)
    requires
        forall|k: int| 0 <= k < fields.len() ==> in_field(#[trigger] fields[k]),
    ensures
        text::split_bytes(ended_fields(fields) + rest, 0, 0) == fields + text::split_bytes(
            rest,
            0,
            0,
        ),
    decreases fields.len(),
{
    if fields.len() == 0 {
        assert(ended_fields(fields) + rest =~= rest);
        assert(fields + text::split_bytes(rest, 0, 0) =~= text::split_bytes(rest, 0, 0));
    } else {
        let others = fields.skip(1);
        assert forall|k: int| 0 <= k < others.len() implies in_field(#[trigger] others[k]) by {
            assert(others[k] == fields[k + 1]);
        }
        lemma_ended(others, rest);
        let behind = ended_fields(others) + rest;
        assert(ended_fields(fields) + rest =~= fields[0].push(0) + behind);
        assert forall|i: int| 0 <= i < fields[0].len() implies !text::separates(
            #[trigger] fields[0][i],
            0,
            0,
        ) by {
            assert(in_field(fields[0]));
        }
        text::lemma_split_first(fields[0], 0, behind, 0, 0);
        assert(seq![fields[0]] + (others + text::split_bytes(rest, 0, 0)) =~= fields
            + text::split_bytes(rest, 0, 0));
    }
}

/// The fields of a record are gathered, and read where the record ends.
proof fn lemma_gathered(fields: Seq<Seq<u8>>, n: int, rest: Seq<Seq<u8>>)
    requires
        0 <= n <= fields.len(),
        forall|k: int| 0 <= k < fields.len() ==> (#[trigger] fields[k]).len() > 0,
    ensures
        inspection::parse_records(fields.skip(n) + rest, fields.take(n), Seq::empty())
            == inspection::parse_records(rest, fields, Seq::empty()),
    decreases fields.len() - n,
{
    if n < fields.len() {
        let pieces = fields.skip(n) + rest;
        assert(pieces[0] == fields[n]);
        assert(pieces.skip(1) =~= fields.skip(n + 1) + rest);
        assert(fields.take(n).push(fields[n]) =~= fields.take(n + 1));
        lemma_gathered(fields, n + 1, rest);
    } else {
        assert(fields.skip(n) + rest =~= rest);
        assert(fields.take(n) =~= fields);
    }
}

proof fn lemma_words()
    ensures
        encode_utf8("worktree "@).len() == 9,
        encode_utf8("HEAD "@).len() == 5,
        encode_utf8("HEAD "@)[0] == 'H' as u8,
        encode_utf8("branch "@).len() == 7,
        encode_utf8("branch "@)[0] == 'b' as u8,
        encode_utf8("branch "@)[1] == 'r' as u8,
        encode_utf8("detached"@).len() == 8,
        encode_utf8("detached"@)[0] == 'd' as u8,
        encode_utf8("bare"@).len() == 4,
        encode_utf8("bare"@)[0] == 'b' as u8,
        encode_utf8("bare"@)[1] == 'a' as u8,
        encode_utf8("locked"@).len() == 6,
        encode_utf8("locked"@)[0] == 'l' as u8,
        encode_utf8("prunable"@).len() == 8,
        encode_utf8("prunable"@)[0] == 'p' as u8,
        encode_utf8("locked "@) == encode_utf8("locked"@).push(32),
        encode_utf8("prunable "@) == encode_utf8("prunable"@).push(32),
        in_field(encode_utf8("worktree "@)),
        in_field(encode_utf8("HEAD "@)),
        in_field(encode_utf8("branch "@)),
        in_field(encode_utf8("detached"@)),
        in_field(encode_utf8("bare"@)),
        in_field(encode_utf8("locked"@)),
        in_field(encode_utf8("prunable"@)),
{
    reveal_strlit("worktree ");
    reveal_strlit("HEAD ");
    reveal_strlit("branch ");
    reveal_strlit("detached");
    reveal_strlit("bare");
    reveal_strlit("locked");
    reveal_strlit("locked ");
    reveal_strlit("prunable");
    reveal_strlit("prunable ");
    is_ascii_chars_encode_utf8("worktree "@);
    is_ascii_chars_encode_utf8("HEAD "@);
    is_ascii_chars_encode_utf8("branch "@);
    is_ascii_chars_encode_utf8("detached"@);
    is_ascii_chars_encode_utf8("bare"@);
    is_ascii_chars_encode_utf8("locked"@);
    is_ascii_chars_encode_utf8("locked "@);
    is_ascii_chars_encode_utf8("prunable"@);
    is_ascii_chars_encode_utf8("prunable "@);
    assert("HEAD "@[0] == 'H');
    assert("branch "@[0] == 'b' && "branch "@[1] == 'r');
    assert("detached"@[0] == 'd');
    assert("bare"@[0] == 'b' && "bare"@[1] == 'a');
    assert("locked"@[0] == 'l');
    assert("prunable"@[0] == 'p');
    assert("locked "@ =~= "locked"@.push(' '));
    assert("prunable "@ =~= "prunable"@.push(' '));
    assert(encode_utf8("locked "@) =~= encode_utf8("locked"@).push(32)) by {
        assert forall|i: int| 0 <= i < 7 implies encode_utf8("locked "@)[i] == encode_utf8(
            "locked"@,
        ).push(32)[i] by {
            assert("locked "@[i] as u8 == encode_utf8("locked "@)[i]);
            if i < 6 {
                assert("locked"@[i] as u8 == encode_utf8("locked"@)[i]);
                assert("locked "@[i] == "locked"@[i]);
            }
        }
    }
    assert(encode_utf8("prunable "@) =~= encode_utf8("prunable"@).push(32)) by {
        assert forall|i: int| 0 <= i < 9 implies encode_utf8("prunable "@)[i] == encode_utf8(
            "prunable"@,
        ).push(32)[i] by {
            assert("prunable "@[i] as u8 == encode_utf8("prunable "@)[i]);
            if i < 8 {
                assert("prunable"@[i] as u8 == encode_utf8("prunable"@)[i]);
                assert("prunable "@[i] == "prunable"@[i]);
            }
        }
    }
    lemma_plain_field("worktree "@);
    lemma_plain_field("HEAD "@);
    lemma_plain_field("branch "@);
    lemma_plain_field("detached"@);
    lemma_plain_field("bare"@);
    lemma_plain_field("locked"@);
    lemma_plain_field("prunable"@);
}

proof fn lemma_plain_field(value: Seq<char>)
    requires
        plain_ascii(value),
    ensures
        in_field(encode_utf8(value)),
        encode_utf8(value).len() == value.len(),
        text::ascii_bytes(encode_utf8(value)),
        text::ascii_text(encode_utf8(value)) == value,
{
    assert(is_ascii_chars(value));
    is_ascii_chars_encode_utf8(value);
    let bytes = encode_utf8(value);
    assert forall|i: int| 0 <= i < bytes.len() implies #[trigger] bytes[i] != 0 && bytes[i] < 128
        && bytes[i] as char == value[i] by {
        assert('\u{1}' <= value[i] <= '\u{7f}');
        assert(bytes[i] == value[i] as u8);
    }
    assert(text::ascii_text(bytes) =~= value);
}

/// One more field of a record is read as what it says.
proof fn lemma_head_field(facts: RecordFactsView, head: Seq<char>)
    requires
        plain_ascii(head),
        facts.head is None,
    ensures
        inspection::add_field(facts, encode_utf8("HEAD "@) + encode_utf8(head)) == Ok::<
            RecordFactsView,
            Seq<char>,
        >(RecordFactsView { head: Some(head), ..facts }),
{
    lemma_plain_field(head);
    text::lemma_starts_with(encode_utf8("HEAD "@), encode_utf8(head));
}

proof fn lemma_branch_field(facts: RecordFactsView, branch: Seq<char>)
    requires
        plain_ascii(branch),
        facts.branch is None,
    ensures
        inspection::add_field(facts, encode_utf8("branch "@) + encode_utf8(branch)) == Ok::<
            RecordFactsView,
            Seq<char>,
        >(RecordFactsView { branch: Some(branch), ..facts }),
{
    lemma_words();
    lemma_plain_field(branch);
    let field = encode_utf8("branch "@) + encode_utf8(branch);
    text::lemma_starts_with(encode_utf8("branch "@), encode_utf8(branch));
    assert(field[0] == encode_utf8("branch "@)[0]);
    text::lemma_starts_otherwise(encode_utf8("HEAD "@), field);
}

proof fn lemma_flag_fields(facts: RecordFactsView, reason: Seq<u8>)
    ensures
        !facts.detached ==> inspection::add_field(facts, encode_utf8("detached"@)) == Ok::<
            RecordFactsView,
            Seq<char>,
        >(RecordFactsView { detached: true, ..facts }),
        !facts.bare ==> inspection::add_field(facts, encode_utf8("bare"@)) == Ok::<
            RecordFactsView,
            Seq<char>,
        >(RecordFactsView { bare: true, ..facts }),
        inspection::add_field(facts, with_reason("locked"@, reason)) == Ok::<
            RecordFactsView,
            Seq<char>,
        >(RecordFactsView { locked: true, ..facts }),
        !facts.prunable ==> inspection::add_field(facts, with_reason("prunable"@, reason)) == Ok::<
            RecordFactsView,
            Seq<char>,
        >(RecordFactsView { prunable: true, ..facts }),
{
    lemma_words();
    let head = encode_utf8("HEAD "@);
    let branch = encode_utf8("branch "@);
    let detached = encode_utf8("detached"@);
    let bare = encode_utf8("bare"@);
    let locked = with_reason("locked"@, reason);
    let prunable = with_reason("prunable"@, reason);
    text::lemma_starts_otherwise(head, detached);
    text::lemma_starts_otherwise(branch, detached);
    text::lemma_starts_otherwise(head, bare);
    assert(!branch.is_prefix_of(bare));
    assert(bare != detached);
    assert(locked[0] == encode_utf8("locked"@)[0]);
    assert(prunable[0] == encode_utf8("prunable"@)[0]);
    text::lemma_starts_otherwise(head, locked);
    text::lemma_starts_otherwise(branch, locked);
    text::lemma_starts_otherwise(encode_utf8("prunable "@), locked);
    text::lemma_starts_otherwise(head, prunable);
    text::lemma_starts_otherwise(branch, prunable);
    assert(locked != detached && locked != bare && locked != encode_utf8("prunable"@)) by {
        assert(locked[0] != detached[0] && locked[0] != bare[0]);
        assert(locked[0] != encode_utf8("prunable"@)[0]);
    }
    assert(prunable != detached && prunable != bare) by {
        assert(prunable[0] != detached[0] && prunable[0] != bare[0]);
    }
    if reason.len() > 0 {
        text::lemma_starts_with(encode_utf8("locked"@).push(32), reason);
        text::lemma_starts_with(encode_utf8("prunable"@).push(32), reason);
    }
}

proof fn lemma_add_last(facts: RecordFactsView, fields: Seq<Seq<u8>>, field: Seq<u8>)
    ensures
        inspection::add_fields(facts, fields.push(field)) == match inspection::add_fields(
            facts,
            fields,
        ) {
            Err(message) => Err(message),
            Ok(more) => inspection::add_field(more, field),
        },
    decreases fields.len(),
{
    if fields.len() == 0 {
        assert(fields.push(field)[0] == field);
        assert(fields.push(field).skip(1) =~= Seq::<Seq<u8>>::empty());
        reveal_with_fuel(inspection::add_fields, 2);
    } else {
        assert(fields.push(field)[0] == fields[0]);
        assert(fields.push(field).skip(1) =~= fields.skip(1).push(field));
        if let Ok(more) = inspection::add_field(facts, fields[0]) {
            lemma_add_last(more, fields.skip(1), field);
        }
    }
}

/// The record of a worktree is read as the worktree.
proof fn lemma_record(listed: ListedWorktree)
    requires
        listable(listed),
    ensures
        inspection::record_worktree(listed_fields(listed)) == Ok::<
            InventoryWorktreeView,
            Seq<char>,
        >(listed.worktree),
{
    lemma_words();
    let worktree = listed.worktree;
    let fields = listed_fields(listed);
    let facts0 = inspection::no_facts();
    let first = encode_utf8("worktree "@) + worktree.path;
    text::lemma_starts_with(encode_utf8("worktree "@), worktree.path);
    assert(fields[0] == first);
    let none = Seq::<Seq<u8>>::empty();
    let part1 = none.push(encode_utf8("HEAD "@) + encode_utf8(worktree.head));
    lemma_head_field(facts0, worktree.head);
    lemma_add_last(facts0, none, encode_utf8("HEAD "@) + encode_utf8(worktree.head));
    let facts1 = RecordFactsView { head: Some(worktree.head), ..facts0 };
    assert(inspection::add_fields(facts0, part1) == Ok::<RecordFactsView, Seq<char>>(facts1));
    let (part2, facts2) = if worktree.bare {
        (part1.push(encode_utf8("bare"@)), RecordFactsView { bare: true, ..facts1 })
    } else {
        (part1, facts1)
    };
    lemma_flag_fields(facts1, Seq::empty());
    lemma_add_last(facts0, part1, encode_utf8("bare"@));
    assert(inspection::add_fields(facts0, part2) == Ok::<RecordFactsView, Seq<char>>(facts2));
    let (part3, facts3) = match worktree.branch {
        Some(branch) => (
            part2.push(encode_utf8("branch "@) + encode_utf8(branch)),
            RecordFactsView { branch: Some(branch), ..facts2 },
        ),
        None => (part2, facts2),
    };
    if let Some(branch) = worktree.branch {
        lemma_branch_field(facts2, branch);
        lemma_add_last(facts0, part2, encode_utf8("branch "@) + encode_utf8(branch));
    }
    assert(inspection::add_fields(facts0, part3) == Ok::<RecordFactsView, Seq<char>>(facts3));
    let (part4, facts4) = if worktree.detached {
        (part3.push(encode_utf8("detached"@)), RecordFactsView { detached: true, ..facts3 })
    } else {
        (part3, facts3)
    };
    lemma_flag_fields(facts3, Seq::empty());
    lemma_add_last(facts0, part3, encode_utf8("detached"@));
    assert(inspection::add_fields(facts0, part4) == Ok::<RecordFactsView, Seq<char>>(facts4));
    let locked = with_reason("locked"@, listed.lock_reason);
    let (part5, facts5) = if worktree.locked {
        (part4.push(locked), RecordFactsView { locked: true, ..facts4 })
    } else {
        (part4, facts4)
    };
    lemma_flag_fields(facts4, listed.lock_reason);
    lemma_add_last(facts0, part4, locked);
    assert(inspection::add_fields(facts0, part5) == Ok::<RecordFactsView, Seq<char>>(facts5));
    let prunable = with_reason("prunable"@, listed.prune_reason);
    let (part6, facts6) = if worktree.prunable {
        (part5.push(prunable), RecordFactsView { prunable: true, ..facts5 })
    } else {
        (part5, facts5)
    };
    lemma_flag_fields(facts5, listed.prune_reason);
    lemma_add_last(facts0, part5, prunable);
    assert(inspection::add_fields(facts0, part6) == Ok::<RecordFactsView, Seq<char>>(facts6));
    assert(fields.skip(1) =~= part6);
}

proof fn lemma_fields_plain(listed: ListedWorktree)
    requires
        listable(listed),
    ensures
        forall|k: int|
            0 <= k < listed_fields(listed).len() ==> in_field(#[trigger] listed_fields(listed)[k])
                && listed_fields(listed)[k].len() > 0,
{
    lemma_words();
    let worktree = listed.worktree;
    let fields = listed_fields(listed);
    lemma_plain_field(worktree.head);
    if let Some(branch) = worktree.branch {
        lemma_plain_field(branch);
        lemma_joined_field(encode_utf8("branch "@), encode_utf8(branch));
    }
    lemma_joined_field(encode_utf8("worktree "@), worktree.path);
    lemma_joined_field(encode_utf8("HEAD "@), encode_utf8(worktree.head));
    assert(in_field(encode_utf8("locked"@).push(32)));
    assert(in_field(encode_utf8("prunable"@).push(32)));
    lemma_joined_field(encode_utf8("locked"@).push(32), listed.lock_reason);
    lemma_joined_field(encode_utf8("prunable"@).push(32), listed.prune_reason);
}

proof fn lemma_joined_field(left: Seq<u8>, right: Seq<u8>)
    requires
        in_field(left),
        in_field(right),
    ensures
        in_field(left + right),
{
    assert forall|i: int| 0 <= i < (left + right).len() implies #[trigger] (left + right)[i]
        != 0 by {
        if i < left.len() {
            assert((left + right)[i] == left[i]);
        } else {
            assert((left + right)[i] == right[i - left.len()]);
        }
    }
}

/// What Git prints of one worktree is read back as the worktree.
proof fn lemma_record_reads_back(listed: ListedWorktree)
    requires
        listable(listed),
    ensures
        inspection::porcelain_worktrees(listed_record(listed)) == Ok::<
            Seq<InventoryWorktreeView>,
            Seq<char>,
        >(seq![listed.worktree]),
{
    let fields = listed_fields(listed);
    let none = Seq::<InventoryWorktreeView>::empty();
    let empty = Seq::<u8>::empty();
    lemma_fields_plain(listed);
    lemma_record(listed);
    let record = listed_record(listed);
    lemma_ended_end(fields);
    assert(record.len() >= 2 && record[record.len() - 1] == 0 && record[record.len() - 2] == 0);
    let rest = empty.push(0);
    assert(record =~= ended_fields(fields) + rest);
    lemma_ended(fields, rest);
    text::lemma_split_piece(empty, 0, 0, 0);
    let tail = seq![empty, empty];
    assert(text::split_bytes(record, 0, 0) == fields + tail);
    assert(fields.skip(0) =~= fields);
    assert(fields.take(0) =~= Seq::<Seq<u8>>::empty());
    lemma_gathered(fields, 0, tail);
    assert(tail.skip(1) =~= seq![empty]);
    assert(seq![empty].skip(1) =~= Seq::<Seq<u8>>::empty());
    let found = none.push(listed.worktree);
    assert(found =~= seq![listed.worktree]);
    assert(inspection::parse_records(tail, fields, none) == inspection::parse_records(
        seq![empty],
        Seq::empty(),
        found,
    ));
    assert(inspection::parse_records(seq![empty], Seq::empty(), found)
        == inspection::parse_records(Seq::empty(), Seq::empty(), found));
}

proof fn lemma_ended_end(fields: Seq<Seq<u8>>)
    requires
        fields.len() > 0,
    ensures
        ended_fields(fields).len() > 0,
        ended_fields(fields).last() == 0,
    decreases fields.len(),
{
    if fields.len() > 1 {
        lemma_ended_end(fields.skip(1));
    } else {
        assert(fields.skip(1) =~= Seq::<Seq<u8>>::empty());
        assert(ended_fields(fields.skip(1)) == Seq::<u8>::empty());
        assert(ended_fields(fields) =~= fields[0].push(0));
    }
}

/// What Git prints of worktrees is read back as the worktrees, in order, whatever their paths hold
/// and whatever reasons are given.
pub proof fn law_lists_are_read_back(listed: Seq<ListedWorktree>)
    requires
        listed.len() > 0,
        forall|k: int| 0 <= k < listed.len() ==> listable(#[trigger] listed[k]),
    ensures
        inspection::porcelain_worktrees(printed_list(listed)) == Ok::<
            Seq<InventoryWorktreeView>,
            Seq<char>,
        >(Seq::new(listed.len(), |k: int| listed[k].worktree)),
    decreases listed.len(),
{
    let last = listed.last();
    assert(listable(listed[listed.len() - 1]));
    lemma_record_reads_back(last);
    let worktrees = Seq::new(listed.len(), |k: int| listed[k].worktree);
    if listed.len() == 1 {
        assert(printed_list(listed.drop_last()) =~= Seq::<u8>::empty());
        assert(printed_list(listed) =~= listed_record(last));
        assert(worktrees =~= seq![last.worktree]);
    } else {
        let shorter = listed.drop_last();
        assert forall|k: int| 0 <= k < shorter.len() implies listable(#[trigger] shorter[k]) by {
            assert(shorter[k] == listed[k]);
        }
        law_lists_are_read_back(shorter);
        laws::law_lists_can_be_put_together(printed_list(shorter), listed_record(last));
        let before = Seq::new(shorter.len(), |k: int| shorter[k].worktree);
        assert(before + seq![last.worktree] =~= worktrees);
    }
}

/// A fetch that did not end with success leaves every worktree of its repository unjudged: it is
/// classified as not fetched, or as not fetched in time, and so is the repository.
pub proof fn law_nothing_is_judged_after_a_failed_fetch(
    repository: Seq<u8>,
    timeout: u64,
    fetch: CommandResultView,
    list: Seq<u8>,
    stderr: Seq<u8>,
    worktrees: Seq<InventoryWorktreeView>,
)
    requires
        !(fetch matches CommandResultView::Exited { code, .. } && code == Some(0i32)),
        inspection::porcelain_worktrees(list) == Ok::<Seq<InventoryWorktreeView>, Seq<char>>(
            worktrees,
        ),
    ensures
        inspection::inspect_flow(
            repository,
            timeout,
            seq![
                ReplyView::Command(fetch),
                ReplyView::Command(
                    CommandResultView::Exited { code: Some(0), stdout: list, stderr },
                ),
            ],
            0,
        ) matches Flow::Done(result, _) && result.message is Some && result.worktrees.len()
            == worktrees.len() && (if fetch is TimedOut {
            result.outcome is FetchTimedOut
        } else {
            result.outcome is FetchFailed
        }) && forall|k: int|
            0 <= k < worktrees.len() ==> {
                &&& (#[trigger] result.worktrees[k]).path == worktrees[k].path
                &&& result.worktrees[k].branch == worktrees[k].branch
                &&& result.worktrees[k].head == worktrees[k].head
                &&& if fetch is TimedOut {
                    result.worktrees[k].classification is FetchTimedOut
                } else {
                    result.worktrees[k].classification is FetchFailed
                }
            },
{
}

/// A list that cannot be had fails the inspection, and one that cannot be read is malformed; either
/// way no worktree is judged.
pub proof fn law_nothing_is_judged_without_a_list(
    repository: Seq<u8>,
    timeout: u64,
    fetch: CommandResultView,
    list: CommandResultView,
)
    requires
        !(list matches CommandResultView::Exited { code, stdout, .. } && code == Some(0i32)
            && inspection::porcelain_worktrees(stdout) is Ok),
    ensures
        inspection::inspect_flow(
            repository,
            timeout,
            seq![ReplyView::Command(fetch), ReplyView::Command(list)],
            0,
        ) matches Flow::Done(result, _) && result.message is Some && result.worktrees.len() == 0 && (
        if list matches CommandResultView::Exited { code, .. } && code == Some(0i32) {
            result.outcome is MalformedPorcelain
        } else {
            result.outcome is InspectionFailed
        }),
{
}

} // verus!
