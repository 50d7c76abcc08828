//! What holds of all inspections.
use crate::command;
use crate::command::ReplyView;
use crate::flow::Flow;
use crate::inspection;
use crate::inspection::{InventoryWorktreeView, RecordFactsView, RepositoryInspectionOutcome};
use crate::inspection::{WorktreeClassification, WorktreeInspectionView};
use crate::text;
use vstd::prelude::*;
use vstd::utf8::*;

verus! {

/// Whether an inspection without proofs of integration can come to a classification.
pub open spec fn unproved(classification: WorktreeClassification) -> bool {
    classification is MainWorktree || classification is UpstreamExists
        || classification is NoUpstream || classification is DetachedWorktree
        || classification is DanglingSymbolicHead || classification is PrunableWorktree
        || classification is UpstreamMissing || classification is Malformed
}

/// Whether an inspection entry speaks of the listed worktree number `i`.
pub open spec fn tells_of(
    inspection: WorktreeInspectionView,
    worktree: InventoryWorktreeView,
    i: int,
) -> bool {
    &&& inspection == inspection::inspected(worktree, inspection.classification)
    &&& unproved(inspection.classification)
    &&& i == 0 ==> inspection.classification is MainWorktree
}

proof fn lemma_classify_all(
    repository: Seq<u8>,
    timeout: u64,
    worktrees: Seq<InventoryWorktreeView>,
    i: int,
    done: Seq<WorktreeInspectionView>,
    issue: Option<Seq<char>>,
    replies: Seq<ReplyView>,
    at: int,
)
    requires
        0 <= i <= worktrees.len(),
        done.len() == i,
        forall|k: int| 0 <= k < i ==> tells_of(#[trigger] done[k], worktrees[k], k),
    ensures
        inspection::classify_all_flow(repository, timeout, worktrees, i, done, issue, replies, at)
            matches Flow::Done(inspection, _) ==> {
            &&& inspection.worktrees.len() == worktrees.len()
            &&& forall|k: int|
                0 <= k < worktrees.len() ==> tells_of(
                    #[trigger] inspection.worktrees[k],
                    worktrees[k],
                    k,
                )
            &&& inspection.outcome is Inspected || inspection.outcome is InspectionFailed
            &&& inspection.outcome is Inspected <==> inspection.message is None
        },
    decreases worktrees.len() - i,
{
    if i < worktrees.len() {
        match inspection::classify_flow(repository, worktrees[i], i == 0, timeout, replies, at) {
            Flow::Ask(_) => {},
            Flow::Done(found, next) => {
                let more = done.push(inspection::inspected(worktrees[i], found.classification));
                assert forall|k: int| 0 <= k < i + 1 implies tells_of(
                    #[trigger] more[k],
                    worktrees[k],
                    k,
                ) by {
                    if k < i {
                        assert(more[k] == done[k]);
                    }
                }
                lemma_classify_all(
                    repository,
                    timeout,
                    worktrees,
                    i + 1,
                    more,
                    inspection::first_issue(issue, found.issue),
                    replies,
                    next,
                );
            },
        }
    }
}

/// After a successful fetch, an inspection speaks of exactly the worktrees that Git listed, in
/// their order: it keeps their paths, commits and branches, takes the first for the main
/// worktree, and classifies none as integrated.
pub proof fn law_inspection_keeps_the_inventory(
    repository: Seq<u8>,
    timeout: u64,
    replies: Seq<ReplyView>,
    at: int,
)
    requires
        0 <= at,
        at + 1 < replies.len(),
        inspection::fetch_failure(command::command_result(replies[at]), timeout) is None,
        inspection::listed(command::command_result(replies[at + 1])) is Ok,
    ensures
        inspection::inspect_flow(repository, timeout, replies, at) matches Flow::Done(inspection, _) ==> {
            let worktrees = inspection::listed(command::command_result(replies[at + 1]))->Ok_0;
            &&& inspection.worktrees.len() == worktrees.len()
            &&& forall|k: int|
                0 <= k < worktrees.len() ==> tells_of(
                    #[trigger] inspection.worktrees[k],
                    worktrees[k],
                    k,
                )
        },
{
    lemma_classify_all(
        repository,
        timeout,
        inspection::listed(command::command_result(replies[at + 1]))->Ok_0,
        0,
        Seq::empty(),
        None,
        replies,
        at + 2,
    );
}

/// A failed fetch prevents all classification: the inspection is complete as soon as the list of
/// worktrees is there, its outcome is not success, and every worktree records the failure.
pub proof fn law_failed_fetch_prevents_classification(
    repository: Seq<u8>,
    timeout: u64,
    replies: Seq<ReplyView>,
    at: int,
)
    requires
        0 <= at,
        at + 1 < replies.len(),
        inspection::fetch_failure(command::command_result(replies[at]), timeout) is Some,
    ensures
        inspection::inspect_flow(repository, timeout, replies, at) is Done,
        inspection::inspect_flow(repository, timeout, replies, at)->Done_0.outcome
            != RepositoryInspectionOutcome::Inspected,
        inspection::inspect_flow(repository, timeout, replies, at)->Done_0.message is Some,
        forall|k: int|
            0 <= k < inspection::inspect_flow(repository, timeout, replies, at)->Done_0.worktrees.len() ==> {
                let classification = (#[trigger] inspection::inspect_flow(
                    repository,
                    timeout,
                    replies,
                    at,
                )->Done_0.worktrees[k]).classification;
                classification is FetchFailed || classification is FetchTimedOut
            },
{
}

proof fn lemma_fields(facts: RecordFactsView, fields: Seq<Seq<u8>>)
    requires
        facts.head matches Some(head) ==> head.len() > 0,
        facts.branch matches Some(branch) ==> branch.len() > 0,
    ensures
        inspection::add_fields(facts, fields) matches Ok(more) ==> {
            &&& more.head matches Some(head) ==> head.len() > 0
            &&& more.branch matches Some(branch) ==> branch.len() > 0
        },
    decreases fields.len(),
{
    if fields.len() > 0 {
        match inspection::add_field(facts, fields[0]) {
            Err(_) => {},
            Ok(more) => lemma_fields(more, fields.skip(1)),
        }
    }
}

/// Whether a listed worktree has a path and a commit, and is not at once detached and on a
/// branch.
pub open spec fn coherent(worktree: InventoryWorktreeView) -> bool {
    &&& worktree.path.len() > 0
    &&& worktree.head.len() > 0
    &&& worktree.branch matches Some(branch) ==> branch.len() > 0
    &&& !(worktree.detached && worktree.branch is Some)
}

proof fn lemma_records(
    pieces: Seq<Seq<u8>>,
    fields: Seq<Seq<u8>>,
    parsed: Seq<InventoryWorktreeView>,
)
    requires
        forall|k: int| 0 <= k < parsed.len() ==> coherent(#[trigger] parsed[k]),
    ensures
        inspection::parse_records(pieces, fields, parsed) matches Ok(worktrees) ==> {
            &&& worktrees.len() > 0
            &&& forall|k: int| 0 <= k < worktrees.len() ==> coherent(#[trigger] worktrees[k])
        },
    decreases pieces.len(),
{
    if pieces.len() > 0 {
        if pieces[0].len() > 0 {
            lemma_records(pieces.skip(1), fields.push(pieces[0]), parsed);
        } else if fields.len() > 0 {
            lemma_fields(inspection::no_facts(), fields.skip(1));
            match inspection::record_worktree(fields) {
                Err(_) => {},
                Ok(worktree) => {
                    assert forall|k: int| 0 <= k < parsed.len() + 1 implies coherent(
                        #[trigger] parsed.push(worktree)[k],
                    ) by {
                        if k < parsed.len() {
                            assert(parsed.push(worktree)[k] == parsed[k]);
                        }
                    }
                    lemma_records(pieces.skip(1), Seq::empty(), parsed.push(worktree));
                },
            }
        } else {
            lemma_records(pieces.skip(1), fields, parsed);
        }
    }
}

/// A list that is accepted names at least one worktree, and every worktree in it is coherent.
pub proof fn law_accepted_lists_are_coherent(input: Seq<u8>)
    ensures
        inspection::porcelain_worktrees(input) matches Ok(worktrees) ==> {
            &&& worktrees.len() > 0
            &&& forall|k: int| 0 <= k < worktrees.len() ==> coherent(#[trigger] worktrees[k])
        },
{
    lemma_records(text::split_bytes(input, 0, 0), Seq::empty(), Seq::empty());
}

proof fn lemma_fields_swap(facts: RecordFactsView, first: Seq<u8>, second: Seq<u8>)
    requires
        inspection::add_field(facts, first) is Ok,
        inspection::add_field(inspection::add_field(facts, first)->Ok_0, second) is Ok,
    ensures
        inspection::add_field(facts, second) is Ok,
        inspection::add_field(inspection::add_field(facts, second)->Ok_0, first)
            == inspection::add_field(inspection::add_field(facts, first)->Ok_0, second),
{
}

proof fn lemma_field_to_front(
    facts: RecordFactsView,
    before: Seq<Seq<u8>>,
    field: Seq<u8>,
    behind: Seq<Seq<u8>>,
)
    requires
        inspection::add_fields(facts, before + (seq![field] + behind)) is Ok,
    ensures
        inspection::add_fields(facts, seq![field] + (before + behind)) == inspection::add_fields(
            facts,
            before + (seq![field] + behind),
        ),
    decreases before.len(),
{
    let whole = before + (seq![field] + behind);
    let moved = seq![field] + (before + behind);
    if before.len() == 0 {
        assert(whole =~= moved);
    } else {
        let first = before[0];
        let rest = before.skip(1);
        assert(whole[0] == first);
        assert(whole.skip(1) =~= rest + (seq![field] + behind));
        let known = inspection::add_field(facts, first)->Ok_0;
        lemma_field_to_front(known, rest, field, behind);
        let inner = seq![field] + (rest + behind);
        assert(inner[0] == field);
        assert(inner.skip(1) =~= rest + behind);
        lemma_fields_swap(facts, first, field);
        assert(moved[0] == field);
        assert(moved.skip(1) =~= before + behind);
        assert((before + behind)[0] == first);
        assert((before + behind).skip(1) =~= rest + behind);
        let after = inspection::add_field(known, field)->Ok_0;
        assert(inspection::add_fields(known, inner) == inspection::add_fields(
            after,
            rest + behind,
        ));
        let other = inspection::add_field(facts, field)->Ok_0;
        assert(inspection::add_fields(other, before + behind) == inspection::add_fields(
            after,
            rest + behind,
        ));
        assert(inspection::add_fields(facts, moved) == inspection::add_fields(
            other,
            before + behind,
        ));
        assert(inspection::add_fields(facts, whole) == inspection::add_fields(
            known,
            rest + (seq![field] + behind),
        ));
    }
}

proof fn lemma_fields_permuted(facts: RecordFactsView, fields: Seq<Seq<u8>>, others: Seq<Seq<u8>>)
    requires
        fields.to_multiset() == others.to_multiset(),
        inspection::add_fields(facts, fields) is Ok,
    ensures
        inspection::add_fields(facts, others) == inspection::add_fields(facts, fields),
    decreases others.len(),
{
    fields.to_multiset_ensures();
    others.to_multiset_ensures();
    if others.len() == 0 {
        assert(fields =~= others);
    } else {
        let first = others[0];
        assert(others.to_multiset().count(first) > 0);
        assert(fields.contains(first));
        let k = choose|k: int| 0 <= k < fields.len() && fields[k] == first;
        let before = fields.take(k);
        let behind = fields.skip(k + 1);
        assert(fields =~= before + (seq![first] + behind));
        lemma_field_to_front(facts, before, first, behind);
        let moved = seq![first] + (before + behind);
        assert(moved.skip(1) =~= before + behind);
        assert(before + behind =~= fields.remove(k));
        assert(others.skip(1) =~= others.remove(0));
        assert(fields.remove(k).to_multiset() =~= fields.to_multiset().remove(first));
        assert(others.remove(0).to_multiset() =~= others.to_multiset().remove(first));
        let known = inspection::add_field(facts, first)->Ok_0;
        lemma_fields_permuted(known, before + behind, others.skip(1));
    }
}

/// The order of the fields of a record behind the first does not matter: with the same fields in
/// another order it is accepted as well, and describes the same worktree.
pub proof fn law_the_order_of_fields_does_not_matter(
    fields: Seq<Seq<u8>>,
    others: Seq<Seq<u8>>,
)
    requires
        fields.len() > 0,
        others.len() > 0,
        fields[0] == others[0],
        fields.skip(1).to_multiset() == others.skip(1).to_multiset(),
    ensures
        inspection::record_worktree(fields) is Ok <==> inspection::record_worktree(others) is Ok,
        inspection::record_worktree(fields) is Ok ==> inspection::record_worktree(fields)
            == inspection::record_worktree(others),
{
    if inspection::add_fields(inspection::no_facts(), fields.skip(1)) is Ok {
        lemma_fields_permuted(inspection::no_facts(), fields.skip(1), others.skip(1));
    }
    if inspection::add_fields(inspection::no_facts(), others.skip(1)) is Ok {
        lemma_fields_permuted(inspection::no_facts(), others.skip(1), fields.skip(1));
    }
}

/// What a field of a record tells.
pub enum FieldKind {
    Head,
    Branch,
    Detached,
    Bare,
    Prunable,
    Locked,
    Unknown,
}

/// What a field of a record tells.
pub open spec fn field_kind(field: Seq<u8>) -> FieldKind {
    if text::bytes_after(field, "HEAD "@) is Some {
        FieldKind::Head
    } else if text::bytes_after(field, "branch "@) is Some {
        FieldKind::Branch
    } else if field == encode_utf8("detached"@) {
        FieldKind::Detached
    } else if field == encode_utf8("bare"@) {
        FieldKind::Bare
    } else if inspection::is_flag(field, "prunable"@, "prunable "@) {
        FieldKind::Prunable
    } else if inspection::is_flag(field, "locked"@, "locked "@) {
        FieldKind::Locked
    } else {
        FieldKind::Unknown
    }
}

/// How many fields are of a kind.
pub open spec fn count_fields(fields: Seq<Seq<u8>>, kind: FieldKind) -> nat
    decreases fields.len(),
{
    if fields.len() == 0 {
        0
    } else {
        count_fields(fields.skip(1), kind) + if field_kind(fields[0]) == kind {
            1nat
        } else {
            0nat
        }
    }
}

/// What is counted of something that is known or not.
pub open spec fn once(known: bool) -> nat {
    if known {
        1
    } else {
        0
    }
}

proof fn lemma_counted(facts: RecordFactsView, fields: Seq<Seq<u8>>)
    ensures
        inspection::add_fields(facts, fields) matches Ok(known) ==> {
            &&& once(known.head is Some) == once(facts.head is Some) + count_fields(
                fields,
                FieldKind::Head,
            )
            &&& once(known.branch is Some) == once(facts.branch is Some) + count_fields(
                fields,
                FieldKind::Branch,
            )
            &&& once(known.detached) == once(facts.detached) + count_fields(
                fields,
                FieldKind::Detached,
            )
            &&& once(known.bare) == once(facts.bare) + count_fields(fields, FieldKind::Bare)
            &&& once(known.prunable) == once(facts.prunable) + count_fields(
                fields,
                FieldKind::Prunable,
            )
            &&& known.locked == (facts.locked || count_fields(fields, FieldKind::Locked) > 0)
            &&& count_fields(fields, FieldKind::Unknown) == 0
        },
    decreases fields.len(),
{
    if fields.len() > 0 {
        if let Ok(more) = inspection::add_field(facts, fields[0]) {
            lemma_counted(more, fields.skip(1));
        }
    }
}

/// A record that is accepted has exactly one field with a commit, no field that is unknown, and at
/// most one field each that names a branch or says that the worktree is detached, bare or prunable;
/// the worktree has a branch, or is detached, bare, prunable or locked, where a field says so, and
/// it is not detached where it has a branch.
pub proof fn law_accepted_records_tell_each_fact_once(fields: Seq<Seq<u8>>)
    ensures
        inspection::record_worktree(fields) matches Ok(worktree) ==> {
            let told = fields.skip(1);
            &&& count_fields(told, FieldKind::Head) == 1
            &&& count_fields(told, FieldKind::Branch) == once(worktree.branch is Some)
            &&& count_fields(told, FieldKind::Detached) == once(worktree.detached)
            &&& count_fields(told, FieldKind::Bare) == once(worktree.bare)
            &&& count_fields(told, FieldKind::Prunable) == once(worktree.prunable)
            &&& worktree.locked == (count_fields(told, FieldKind::Locked) > 0)
            &&& count_fields(told, FieldKind::Unknown) == 0
            &&& !(worktree.detached && worktree.branch is Some)
        },
{
    lemma_counted(inspection::no_facts(), fields.skip(1));
}

proof fn lemma_pieces_joined(left: Seq<u8>, right: Seq<u8>)
    requires
        left.len() > 0,
        left.last() == 0,
    ensures
        text::split_bytes(left + right, 0, 0) == text::split_bytes(left, 0, 0).drop_last()
            + text::split_bytes(right, 0, 0),
        text::split_bytes(right, 0, 0).len() > 0,
    decreases right.len(),
{
    let front = text::split_bytes(left, 0, 0).drop_last();
    let whole = left + right;
    if right.len() == 0 {
        assert(whole =~= left);
        let before = text::split_bytes(left.drop_last(), 0, 0);
        assert(text::split_bytes(left, 0, 0) == before.push(Seq::<u8>::empty()));
        assert(front =~= before);
        assert(front + seq![Seq::<u8>::empty()] =~= before.push(Seq::<u8>::empty()));
    } else {
        lemma_pieces_joined(left, right.drop_last());
        assert(whole.drop_last() =~= left + right.drop_last());
        assert(whole.last() == right.last());
        let before = text::split_bytes(right.drop_last(), 0, 0);
        if right.last() == 0 {
            assert((front + before).push(Seq::<u8>::empty()) =~= front + before.push(
                Seq::<u8>::empty(),
            ));
        } else {
            assert((front + before).drop_last().push((front + before).last().push(right.last()))
                =~= front + before.drop_last().push(before.last().push(right.last())));
        }
    }
}

proof fn lemma_records_go_on(
    pieces: Seq<Seq<u8>>,
    more: Seq<Seq<u8>>,
    fields: Seq<Seq<u8>>,
    parsed: Seq<InventoryWorktreeView>,
)
    requires
        inspection::parse_records(pieces, fields, parsed) is Ok,
    ensures
        inspection::parse_records(pieces + more, fields, parsed) == inspection::parse_records(
            more,
            Seq::empty(),
            inspection::parse_records(pieces, fields, parsed)->Ok_0,
        ),
    decreases pieces.len(),
{
    if pieces.len() == 0 {
        assert(pieces + more =~= more);
        assert(fields =~= Seq::empty());
    } else {
        assert((pieces + more)[0] == pieces[0]);
        assert((pieces + more).skip(1) =~= pieces.skip(1) + more);
        if pieces[0].len() > 0 {
            lemma_records_go_on(pieces.skip(1), more, fields.push(pieces[0]), parsed);
        } else if fields.len() > 0 {
            if let Ok(worktree) = inspection::record_worktree(fields) {
                lemma_records_go_on(
                    pieces.skip(1),
                    more,
                    Seq::empty(),
                    parsed.push(worktree),
                );
            }
        } else {
            lemma_records_go_on(pieces.skip(1), more, fields, parsed);
        }
    }
}

proof fn lemma_records_behind(
    pieces: Seq<Seq<u8>>,
    fields: Seq<Seq<u8>>,
    before: Seq<InventoryWorktreeView>,
    parsed: Seq<InventoryWorktreeView>,
)
    requires
        inspection::parse_records(pieces, fields, parsed) is Ok,
    ensures
        inspection::parse_records(pieces, fields, before + parsed) == Ok::<
            Seq<InventoryWorktreeView>,
            Seq<char>,
        >(before + inspection::parse_records(pieces, fields, parsed)->Ok_0),
    decreases pieces.len(),
{
    if pieces.len() > 0 {
        if pieces[0].len() > 0 {
            lemma_records_behind(pieces.skip(1), fields.push(pieces[0]), before, parsed);
        } else if fields.len() > 0 {
            if let Ok(worktree) = inspection::record_worktree(fields) {
                assert((before + parsed).push(worktree) =~= before + parsed.push(worktree));
                lemma_records_behind(
                    pieces.skip(1),
                    Seq::empty(),
                    before,
                    parsed.push(worktree),
                );
            }
        } else {
            lemma_records_behind(pieces.skip(1), fields, before, parsed);
        }
    }
}

proof fn lemma_last_piece(
    pieces: Seq<Seq<u8>>,
    fields: Seq<Seq<u8>>,
    parsed: Seq<InventoryWorktreeView>,
)
    requires
        pieces.len() > 0,
        pieces.last().len() == 0,
    ensures
        inspection::parse_records(pieces.push(Seq::empty()), fields, parsed)
            == inspection::parse_records(pieces, fields, parsed),
    decreases pieces.len(),
{
    let longer = pieces.push(Seq::<u8>::empty());
    assert(longer[0] == pieces[0]);
    let rest = pieces.skip(1);
    if pieces.len() == 1 {
        assert(longer.skip(1) =~= seq![Seq::<u8>::empty()]);
        assert(longer.skip(1).skip(1) =~= Seq::empty());
        assert(rest =~= Seq::empty());
        reveal_with_fuel(inspection::parse_records, 3);
    } else {
        assert(longer.skip(1) =~= rest.push(Seq::<u8>::empty()));
        assert(rest.last() == pieces.last());
        if pieces[0].len() > 0 {
            lemma_last_piece(rest, fields.push(pieces[0]), parsed);
        } else if fields.len() > 0 {
            if let Ok(worktree) = inspection::record_worktree(fields) {
                lemma_last_piece(rest, Seq::empty(), parsed.push(worktree));
            }
        } else {
            lemma_last_piece(rest, fields, parsed);
        }
    }
}

/// Two lists that are accepted, one behind the other, are accepted too, and name the worktrees of
/// the one and then those of the other.
pub proof fn law_lists_can_be_put_together(left: Seq<u8>, right: Seq<u8>)
    requires
        inspection::porcelain_worktrees(left) is Ok,
        inspection::porcelain_worktrees(right) is Ok,
    ensures
        inspection::porcelain_worktrees(left + right) == Ok::<
            Seq<InventoryWorktreeView>,
            Seq<char>,
        >(
            inspection::porcelain_worktrees(left)->Ok_0 + inspection::porcelain_worktrees(
                right,
            )->Ok_0,
        ),
{
    let none = Seq::<Seq<u8>>::empty();
    let empty = Seq::<InventoryWorktreeView>::empty();
    lemma_pieces_joined(left, right);
    let pieces = text::split_bytes(left, 0, 0);
    let front = pieces.drop_last();
    let more = text::split_bytes(right, 0, 0);
    let x = inspection::porcelain_worktrees(left)->Ok_0;
    assert(front =~= text::split_bytes(left.drop_last(), 0, 0));
    assert(left.drop_last().last() == 0);
    assert(pieces =~= front.push(Seq::<u8>::empty()));
    lemma_last_piece(front, none, empty);
    lemma_records_go_on(front, more, none, empty);
    lemma_records_behind(more, none, x, empty);
    assert(x + empty =~= x);
    let whole = left + right;
    assert(whole[whole.len() - 1] == right[right.len() - 1]);
    assert(whole[whole.len() - 2] == right[right.len() - 2]);
}

} // verus!
