//! That the store of proposals keeps what it is given, and lists what is asked for.
use vstd::prelude::*;

use crate::json::Json;
use crate::proposals::domain::{
    proposal_same, EditProposal, Proposal, ProposalDomainError, ProposalStatus,
};
use crate::proposals::repository::{
    listing, lists, revision_refusal, stores, ProposalQuery, RepositoryError,
};
use crate::proposals::service::{
    decision_refusal, edit_refusal, fails, selected, settles, ProposalServiceError,
};
use crate::time::{Instant, Uuid};

verus! {

/// A list holds stored proposals of the status and source that are asked for, the newest one
/// first and of two of the same age the one with the greater identifier, and no more than the
/// limit allows.
pub proof fn lists_hold_what_is_asked_for(
    stored: Map<Uuid, Proposal>,
    query: ProposalQuery,
    list: Seq<Proposal>,
    i: int,
    j: int,
)
    requires
        listing(stored, query, list),
        0 <= i < list.len(),
    ensures
        list.len() <= query.limit,
        stored.contains_key(list[i].id),
        stored[list[i].id].status == list[i].status,
        stored[list[i].id].payload is Object == list[i].payload is Object,
        query.status is Some ==> list[i].status == query.status->0,
        query.source is Some ==> list[i].source == query.source->0,
        i < j < list.len() ==> {
            &&& list[j].created_at <= list[i].created_at
            &&& list[j].created_at == list[i].created_at ==> list[j].id < list[i].id
        },
{
    assert(crate::proposals::domain::proposal_same(stored[list[i].id], list[i]));
    if i < j < list.len() {
        assert(crate::proposals::repository::listed_before(list[i], list[j]));
    }
}

/// A list leaves out a stored proposal that is asked for only if it is full, and then only one
/// that is older than every one that it holds.
pub proof fn lists_leave_out_only_older_ones(
    stored: Map<Uuid, Proposal>,
    query: ProposalQuery,
    list: Seq<Proposal>,
    id: Uuid,
    k: int,
)
    requires
        listing(stored, query, list),
        stored.contains_key(id),
        stored[id].id == id,
        query.status is Some ==> stored[id].status == query.status->0,
        query.source is Some ==> stored[id].source == query.source->0,
        forall|i: int| 0 <= i < list.len() ==> (#[trigger] list[i]).id != id,
    ensures
        list.len() == query.limit,
        0 <= k < list.len() ==> stored[id].created_at <= list[k].created_at,
        0 <= k < list.len() && stored[id].created_at == list[k].created_at ==> id < list[k].id,
{
    assert(!lists(list, id));
    if 0 <= k < list.len() {
        assert(crate::proposals::repository::listed_before(list[k], stored[id]));
    }
}

/// A list that is chosen from proposals holds those of the status that is asked for, in their
/// order, from the first on.
pub proof fn chosen_are_the_first_of_their_status(
    query: ProposalQuery,
    proposals: Seq<Proposal>,
    k: int,
)
    requires
        0 <= k < selected(query, proposals).len(),
    ensures
        selected(query, proposals).len() <= query.limit,
        proposals.contains(selected(query, proposals)[k]),
        query.status is Some ==> selected(query, proposals)[k].status == query.status->0,
{
    let wanted = proposals.filter(
        |proposal: Proposal| crate::proposals::service::status_asked_for(query, proposal),
    );
    assert(wanted.contains(wanted[k]));
    lemma_chosen(query, proposals, wanted[k]);
}

/// Nothing of the status that is asked for is missing from a list that is not full.
pub proof fn nothing_is_missing_from_a_list_that_is_not_full(
    query: ProposalQuery,
    proposals: Seq<Proposal>,
    i: int,
)
    requires
        0 <= i < proposals.len(),
        query.status is Some ==> proposals[i].status == query.status->0,
        selected(query, proposals).len() < query.limit,
    ensures
        selected(query, proposals).contains(proposals[i]),
{
    assert(proposals.contains(proposals[i]));
    lemma_chosen(query, proposals, proposals[i]);
}

proof fn lemma_chosen(query: ProposalQuery, proposals: Seq<Proposal>, proposal: Proposal)
    ensures
        proposals.filter(
            |candidate: Proposal| crate::proposals::service::status_asked_for(query, candidate),
        ).contains(proposal) == (proposals.contains(proposal)
            && crate::proposals::service::status_asked_for(query, proposal)),
    decreases proposals.len(),
{
    reveal(Seq::filter);
    let keep = |candidate: Proposal|
        crate::proposals::service::status_asked_for(query, candidate);
    if proposals.len() > 0 {
        let first = proposals.drop_last();
        let last = proposals.last();
        lemma_chosen(query, first, proposal);
        let before = first.filter(keep);
        let kept = proposals.filter(keep);
        assert(kept == if keep(last) {
            before.push(last)
        } else {
            before
        });
        assert(proposals =~= first.push(last));
        lemma_pushed(first, last, proposal);
        lemma_pushed(before, last, proposal);
    }
}

proof fn lemma_pushed(proposals: Seq<Proposal>, last: Proposal, proposal: Proposal)
    ensures
        proposals.push(last).contains(proposal) == (proposals.contains(proposal) || proposal
            == last),
{
    let more = proposals.push(last);
    assert(more[proposals.len() as int] == last);
    if proposals.contains(proposal) {
        let k = choose|k: int| 0 <= k < proposals.len() && proposals[k] == proposal;
        assert(more[k] == proposal);
    }
    if more.contains(proposal) {
        let k = choose|k: int| 0 <= k < more.len() && more[k] == proposal;
        if k < proposals.len() {
            assert(proposals[k] == proposal);
        }
    }
}

/// Proposals that agree cannot be told apart by any of their parts.
pub proof fn agreeing_proposals_have_the_same_parts(a: Proposal, b: Proposal)
    requires
        proposal_same(a, b),
    ensures
        a.id == b.id,
        a.revision == b.revision,
        a.submitted_by@ == b.submitted_by@,
        a.source == b.source,
        a.source_reference is Some == b.source_reference is Some,
        a.source_reference is Some ==> a.source_reference->0@ == b.source_reference->0@,
        a.kind == b.kind,
        a.status == b.status,
        a.title@ == b.title@,
        a.explanation is Some == b.explanation is Some,
        a.explanation is Some ==> a.explanation->0@ == b.explanation->0@,
        crate::json::json_same(a.payload, b.payload),
        a.decision_note is Some == b.decision_note is Some,
        a.decision_note is Some ==> a.decision_note->0@ == b.decision_note->0@,
        a.created_at == b.created_at,
        a.updated_at == b.updated_at,
        a.expires_at == b.expires_at,
        a.decided_at == b.decided_at,
{
}

/// Values that are the same have the same shape and the same parts: none is taken for another.
pub proof fn same_values_have_the_same_parts(a: Json, b: Json)
    requires
        crate::json::json_same(a, b),
    ensures
        a is Null == b is Null,
        a is Bool == b is Bool && (a is Bool ==> a->Bool_0 == b->Bool_0),
        a is Text == b is Text && (a is Text ==> a->Text_0@ == b->Text_0@),
        a is Number == b is Number && (a is Number ==> match (a->Number_0, b->Number_0) {
            (crate::json::JsonNumber::Unsigned(x), crate::json::JsonNumber::Unsigned(y)) => x == y,
            (crate::json::JsonNumber::Negative(x), crate::json::JsonNumber::Negative(y)) => x == y,
            (crate::json::JsonNumber::Decimal(x), crate::json::JsonNumber::Decimal(y)) => x@ == y@,
            _ => false,
        }),
        a is Array == b is Array && (a is Array ==> a->Array_0@.len() == b->Array_0@.len()
            && forall|i: int|
            0 <= i < a->Array_0@.len() ==> crate::json::json_same(
                #[trigger] a->Array_0@[i],
                b->Array_0@[i],
            )),
        a is Object == b is Object && (a is Object ==> a->Object_0@.len() == b->Object_0@.len()
            && forall|i: int|
            0 <= i < a->Object_0@.len() ==> (#[trigger] a->Object_0@[i]).0@ == b->Object_0@[i].0@
                && crate::json::json_same(a->Object_0@[i].1, b->Object_0@[i].1)),
{
}

/// What was stored is found again, everything else stays as it was, and storing a proposal
/// twice is storing it once.
pub proof fn stored_proposals_are_found_again(
    before: Map<Uuid, Proposal>,
    after: Map<Uuid, Proposal>,
    proposal: Proposal,
    id: Uuid,
)
    requires
        stores(before, after, proposal),
    ensures
        after.contains_key(proposal.id),
        after[proposal.id].title@ == proposal.title@,
        after[proposal.id].status == proposal.status,
        after[proposal.id].revision == proposal.revision,
        crate::json::json_same(proposal.payload, after[proposal.id].payload),
        id != proposal.id ==> after.contains_key(id) == before.contains_key(id),
        id != proposal.id && before.contains_key(id) ==> after[id] == before[id],
        stores(after, after, proposal),
{
    assert(after.dom() == after.dom().insert(proposal.id));
}

/// A proposal is written over or deleted exactly if it is stored with the expected revision.
pub proof fn only_the_expected_revision_is_replaced(
    stored: Map<Uuid, Proposal>,
    id: Uuid,
    expected: u64,
)
    ensures
        (revision_refusal(stored, id, expected) is None) <==> stored.contains_key(id)
            && stored[id].revision == expected,
        match revision_refusal(stored, id, expected) {
            None => true,
            Some(RepositoryError::NotFound(missing)) => missing == id && !stored.contains_key(id),
            Some(RepositoryError::RevisionConflict { expected: asked, actual }) => asked == expected
                && stored.contains_key(id) && actual == stored[id].revision && actual != expected,
            Some(_) => false,
        },
{
}

/// A proposal is changed exactly if the change was made for its revision, it still waits and
/// has not run out, and the change is sound. Otherwise the refusal is true.
pub proof fn only_waiting_proposals_are_edited(
    proposal: Proposal,
    expected: u64,
    edit: EditProposal,
    now: Instant,
)
    ensures
        (edit_refusal(proposal, expected, edit, now) is None) <==> proposal.revision == expected
            && proposal.status == ProposalStatus::Pending && now < proposal.expires_at
            && crate::proposals::domain::edit_error(edit, now) is None,
        match edit_refusal(proposal, expected, edit, now) {
            None => true,
            Some(ProposalServiceError::Repository(error)) => error == (
            RepositoryError::RevisionConflict { expected, actual: proposal.revision })
                && proposal.revision != expected,
            Some(ProposalServiceError::Domain(ProposalDomainError::NotPending(status))) => {
                ||| status == ProposalStatus::Expired && proposal.status == ProposalStatus::Pending
                    && proposal.expires_at <= now
                ||| status == proposal.status && proposal.status != ProposalStatus::Pending
            },
            Some(ProposalServiceError::Domain(error)) => crate::proposals::domain::edit_error(
                edit,
                now,
            ) == Some(error),
        },
{
}

/// A proposal is decided on exactly if the decision was made for its revision, it still waits
/// and has not run out, and the note is short and plain. Otherwise the refusal is true.
pub proof fn only_waiting_proposals_are_decided(
    proposal: Proposal,
    expected: u64,
    note: Option<String>,
    now: Instant,
)
    ensures
        (decision_refusal(proposal, expected, note, now) is None) <==> proposal.revision == expected
            && proposal.status == ProposalStatus::Pending && now < proposal.expires_at && (
        note is Some ==> note->0@.len() <= 1_000 && forall|i: int|
            0 <= i < note->0@.len() ==> !crate::text::control_char(#[trigger] note->0@[i])),
        match decision_refusal(proposal, expected, note, now) {
            None => true,
            Some(ProposalServiceError::Repository(error)) => error == (
            RepositoryError::RevisionConflict { expected, actual: proposal.revision })
                && proposal.revision != expected,
            Some(ProposalServiceError::Domain(ProposalDomainError::NotPending(status))) => {
                ||| status == ProposalStatus::Expired && proposal.status == ProposalStatus::Pending
                    && proposal.expires_at <= now
                ||| status == proposal.status && proposal.status != ProposalStatus::Pending
            },
            Some(ProposalServiceError::Domain(_)) => note is Some && (note->0@.len() > 1_000
                || crate::text::has_control(note->0@)),
        },
{
    if note is Some && !crate::text::has_control(note->0@) {
        assert forall|i: int| 0 <= i < note->0@.len() implies !crate::text::control_char(
            #[trigger] note->0@[i],
        ) by {}
    }
}

/// Reading a proposal changes the store only where the proposal has run out, and then only its
/// status, revision and time of change. Reading it once more changes nothing.
pub proof fn reading_changes_only_what_has_run_out(
    before: Map<Uuid, Proposal>,
    after: Map<Uuid, Proposal>,
    id: Uuid,
    now: Instant,
    other: Uuid,
)
    requires
        before.contains_key(id) ==> before[id].id == id && before[id].revision < u64::MAX,
        settles(before, after, id, now),
    ensures
        after.contains_key(other) == before.contains_key(other),
        other != id && before.contains_key(other) ==> after[other] == before[other],
        before.contains_key(id) && (before[id].status != ProposalStatus::Pending || now
            < before[id].expires_at) ==> after[id] == before[id],
        before.contains_key(id) && before[id].status == ProposalStatus::Pending
            && before[id].expires_at <= now ==> {
            &&& after[id].status == ProposalStatus::Expired
            &&& after[id].revision == before[id].revision + 1
            &&& after[id].updated_at == now
            &&& after[id].title@ == before[id].title@
            &&& crate::json::json_same(before[id].payload, after[id].payload)
            &&& after[id].expires_at == before[id].expires_at
        },
        settles(after, after, id, now),
{
    if before.contains_key(id) {
        crate::json::json_same_reflexive(before[id].payload);
    }
}

/// An operation that fails leaves every proposal as it was, but for the one that it was about
/// and that had run out.
pub proof fn failures_change_nothing_else(
    before: Map<Uuid, Proposal>,
    after: Map<Uuid, Proposal>,
    id: Uuid,
    seen: Instant,
    refusal: Option<ProposalServiceError>,
    answers: bool,
    error: ProposalServiceError,
    other: Uuid,
)
    requires
        before.contains_key(id) ==> before[id].id == id,
        fails(before, after, id, seen, refusal, answers, error),
    ensures
        after.contains_key(other) == before.contains_key(other),
        before.contains_key(other) && (other != id || before[id].status != ProposalStatus::Pending
            || seen < before[id].expires_at) ==> after[other] == before[other],
        answers && before.contains_key(id) ==> refusal == Some(error),
        answers && !before.contains_key(id) ==> error == ProposalServiceError::Repository(
            RepositoryError::NotFound(id),
        ),
{
}

/// Each column of a proposal holds the part of the proposal that it is called.
pub proof fn columns_of_a_proposal_hold_its_parts(
    proposal: Proposal,
    row: crate::proposals::storage::ProposalRow,
)
    requires
        crate::proposals::storage::proposal_reads(proposal, row),
    ensures
        row.id == proposal.id,
        row.revision == proposal.revision,
        row.submitted_by_subject == proposal.submitted_by,
        row.source@ == crate::proposals::names::source_name_text(proposal.source),
        row.source_reference == proposal.source_reference,
        row.kind@ == crate::proposals::names::kind_name_text(proposal.kind),
        row.status@ == crate::proposals::names::status_name_text(proposal.status),
        row.title == proposal.title,
        row.explanation == proposal.explanation,
        row.payload == proposal.payload,
        row.decision_note == proposal.decision_note,
        row.created_at == proposal.created_at,
        row.updated_at == proposal.updated_at,
        row.expires_at == proposal.expires_at,
        row.decided_at == proposal.decided_at,
{
}

/// What is recorded of a change names the revision that was changed: none for a new proposal,
/// the one that was written over for a changed one, and the one that it keeps for one that
/// goes to the trash.
pub proof fn changes_name_the_revision_they_changed(
    event: crate::proposals::storage::ProposalEvent,
    revision: u64,
)
    ensures
        ({
            let base = crate::proposals::storage::base_of(event, revision);
            &&& (base is None) == (event is Created)
            &&& event is Updated ==> base == Some(event->base_revision)
            &&& event is Trashed ==> base == Some(revision)
        }),
{
}

/// No list shows a proposal as waiting that had run out when it was read: such a one is shown as
/// expired, and any other as it was.
pub proof fn lists_show_what_has_run_out_as_expired(
    read: Seq<Proposal>,
    instants: Seq<Instant>,
    list: Seq<Proposal>,
    k: int,
)
    requires
        crate::proposals::service::settled_list(read, instants, list, read.len() as int),
        0 <= k < read.len(),
    ensures
        list.len() == read.len(),
        list[k].id == read[k].id,
        list[k].title@ == read[k].title@,
        list[k].created_at == read[k].created_at,
        read[k].status == ProposalStatus::Pending && read[k].expires_at <= instants[k]
            ==> list[k].status == ProposalStatus::Expired,
        read[k].status != ProposalStatus::Pending || instants[k] < read[k].expires_at
            ==> list[k].status == read[k].status && list[k].revision == read[k].revision,
        list[k].status == ProposalStatus::Pending ==> instants[k] < list[k].expires_at,
{
    assert(crate::proposals::domain::proposal_same(
        crate::proposals::domain::normalized(read[k], instants[k]),
        list[k],
    ));
}

/// Reading a list changes only proposals of the list that had run out, and each of them as
/// reading it alone does.
pub proof fn lists_change_only_what_has_run_out(
    before: Map<Uuid, Proposal>,
    after: Map<Uuid, Proposal>,
    read: Seq<Proposal>,
    instants: Seq<Instant>,
    count: int,
    k: int,
    id: Uuid,
)
    requires
        crate::proposals::service::list_settles(before, after, read, instants, count),
        0 <= count <= read.len(),
        0 <= k < count,
    ensures
        after.contains_key(id) == before.contains_key(id),
        before.contains_key(id) && (forall|j: int|
            0 <= j < count ==> (#[trigger] read[j]).id != id) ==> after[id] == before[id],
        ({
            let stored = before[read[k].id];
            &&& stored.status == ProposalStatus::Pending && stored.expires_at <= instants[k]
                ==> after[read[k].id].status == ProposalStatus::Expired
            &&& stored.status != ProposalStatus::Pending || instants[k] < stored.expires_at
                ==> after[read[k].id] == stored
        }),
{
    if before.contains_key(id) && (forall|j: int|
        0 <= j < count ==> (#[trigger] read[j]).id != id) {
        let part = read.take(count);
        if lists(part, id) {
            let j = choose|j: int| 0 <= j < part.len() && (#[trigger] part[j]).id == id;
            assert(read[j].id == id);
        }
    }
    let own = read[k];
    assert(own == read[k]);
}

} // verus!
