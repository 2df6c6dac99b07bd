//! When an approved review still stands, and when an application can still be undone.
use vstd::prelude::*;

use crate::items::commands::{TransactionalItemCommand, TransactionalItemEffect};
use crate::items::model::Item;
use crate::proposals::application::{
    ProposalApplicationStatus, ProposalConflictCode, ProposalOperation, ProposalUndoRequest,
};
use crate::proposals::domain::{Proposal, ProposalStatus};
use crate::review::applications::{
    acceptable, first_reviewed_refusal, reviewed_refusal, StoredApplication,
};
use crate::review::decisions::undo_refused;
use crate::review::errors::Refusal;
use crate::review::hashes::StoredPreviewMember;
use crate::review::requests::ProposalLookup;
use crate::review::undoing::{
    first_fence_refusal, inverse_of, trial_targets, undo_refusal, undone_targets, StoredEffect,
    StoredFence,
};
use crate::time::{Instant, Uuid};

verus! {

/// Whether no two items have the same identifier.
pub open spec fn identities_differ(items: Seq<Item>) -> bool {
    forall|i: int, j: int|
        0 <= i < items.len() && 0 <= j < items.len() && i != j ==> (#[trigger] items[i]).id != (
        #[trigger] items[j]).id
}

/// Whether an item is there as an application left it.
pub open spec fn left_alone(fence: StoredFence, items: Seq<Item>) -> bool {
    exists|k: int|
        0 <= k < items.len() && (#[trigger] items[k]).id == fence.item_id && items[k].revision
            == fence.applied_revision && (items[k].deleted_at is Some) == fence.applied_deleted
}

proof fn lemma_fence(fence: StoredFence, items: Seq<Item>)
    requires
        identities_differ(items),
    ensures
        (crate::review::undoing::fence_refusal(fence, items) is None) == left_alone(fence, items),
        crate::review::undoing::fence_refusal(fence, items) == Some(Refusal::NotFound) <==> forall|
            k: int,
        |
            0 <= k < items.len() ==> (#[trigger] items[k]).id != fence.item_id,
        match crate::review::undoing::fence_refusal(fence, items) {
            None => true,
            Some(refusal) => refusal == Refusal::NotFound || refusal == Refusal::Stale(
                ProposalConflictCode::UndoDiverged,
            ),
        },
{
    let found = crate::review::diffs::item_with_id(items, fence.item_id);
    if exists|k: int| 0 <= k < items.len() && (#[trigger] items[k]).id == fence.item_id {
        let k = choose|k: int| 0 <= k < items.len() && (#[trigger] items[k]).id == fence.item_id;
        crate::review::showing::items_are_found_by_their_identity(items, fence.item_id, k);
        assert(found == Some(items[k]));
        if left_alone(fence, items) {
            let j = choose|j: int|
                0 <= j < items.len() && (#[trigger] items[j]).id == fence.item_id
                    && items[j].revision == fence.applied_revision && (items[j].deleted_at is Some)
                    == fence.applied_deleted;
            assert(j == k);
        }
    } else {
        lemma_absent(items, fence.item_id);
    }
}

proof fn lemma_absent(items: Seq<Item>, id: Uuid)
    requires
        forall|k: int| 0 <= k < items.len() ==> (#[trigger] items[k]).id != id,
    ensures
        crate::review::diffs::item_with_id(items, id) is None,
    decreases items.len(),
{
    if items.len() > 0 {
        assert(items[items.len() - 1].id != id);
        let first = items.drop_last();
        assert forall|k: int| 0 <= k < first.len() implies (#[trigger] first[k]).id != id by {
            assert(first[k] == items[k]);
        }
        lemma_absent(first, id);
    }
}

proof fn lemma_fences(fences: Seq<StoredFence>, items: Seq<Item>, k: int)
    requires
        identities_differ(items),
        0 <= k,
    ensures
        (first_fence_refusal(fences, items, k) is None) <==> forall|i: int|
            k <= i < fences.len() ==> left_alone(#[trigger] fences[i], items),
        match first_fence_refusal(fences, items, k) {
            None => true,
            Some(refusal) => refusal == Refusal::NotFound || refusal == Refusal::Stale(
                ProposalConflictCode::UndoDiverged,
            ),
        },
    decreases fences.len() - k,
{
    if k < fences.len() {
        lemma_fence(fences[k], items);
        lemma_fences(fences, items, k + 1);
        if first_fence_refusal(fences, items, k) is None {
            assert forall|i: int| k <= i < fences.len() implies left_alone(
                #[trigger] fences[i],
                items,
            ) by {
                if i > k {
                    assert(left_alone(fences[i], items));
                }
            }
        } else if crate::review::undoing::fence_refusal(fences[k], items) is Some {
            assert(!left_alone(fences[k], items));
        }
    }
}

/// An application can be undone exactly if it is applied and at the revision that the request
/// names, its time to be undone is not over, every item that it changed is as it left it, and
/// none of them is managed elsewhere.
pub proof fn applications_can_be_undone_exactly_while_untouched(
    application: StoredApplication,
    request: ProposalUndoRequest,
    now: Instant,
    fences: Seq<StoredFence>,
    items: Seq<Item>,
    managed: Seq<Uuid>,
)
    requires
        identities_differ(items),
    ensures
        (undo_refused(application, request, now, fences, items, managed) is None) <==> {
            &&& application.status == ProposalApplicationStatus::Applied
            &&& application.revision == request.expected_application_revision
            &&& now < application.undo_expires_at
            &&& forall|i: int| 0 <= i < fences.len() ==> left_alone(#[trigger] fences[i], items)
            &&& managed.len() == 0
        },
        match undo_refused(application, request, now, fences, items, managed) {
            None => true,
            Some(Refusal::Stale(ProposalConflictCode::AlreadyApplied)) => application.status
                != ProposalApplicationStatus::Applied,
            Some(Refusal::RevisionConflict { expected, actual }) => expected
                == request.expected_application_revision && actual == application.revision
                && expected != actual,
            Some(Refusal::Stale(ProposalConflictCode::UndoExpired)) => application.undo_expires_at
                <= now,
            Some(Refusal::Stale(ProposalConflictCode::UndoDiverged)) => exists|i: int|
                0 <= i < fences.len() && !left_alone(#[trigger] fences[i], items),
            Some(Refusal::NotFound) => exists|i: int|
                0 <= i < fences.len() && !left_alone(#[trigger] fences[i], items),
            Some(Refusal::Stale(ProposalConflictCode::ProviderManagedItem)) => managed.len() > 0,
            Some(_) => false,
        },
{
    lemma_fences(fences, items, 0);
}

/// What takes back a creation puts the item into the trash, and what takes back any other
/// command brings the former state of its item back. Without the former state there is
/// nothing to bring back.
pub proof fn effects_are_taken_back_by_their_opposites(effect: StoredEffect, revision: u64)
    ensures
        effect.operation == ProposalOperation::CreateItem ==> inverse_of(effect, revision) == Some(
            TransactionalItemCommand::Trash {
                item_id: effect.item_id,
                expected_revision: revision,
            },
        ),
        effect.operation != ProposalOperation::CreateItem ==> (inverse_of(effect, revision) is Some)
            == (effect.before is Some),
        effect.operation != ProposalOperation::CreateItem && effect.before is Some ==> match
            inverse_of(effect, revision)->0
        {
            TransactionalItemCommand::RestoreSnapshot { item_id, expected_revision, snapshot } =>
            item_id == effect.item_id && expected_revision == revision && *snapshot
                == effect.before->0,
            _ => false,
        },
{
}

/// The dependencies of an item are written anew when an application is undone exactly if the
/// application changed the item and did not create it.
pub proof fn only_former_items_are_wired_anew(effects: Seq<StoredEffect>, id: Uuid)
    ensures
        undone_targets(effects).contains(id) <==> exists|k: int|
            0 <= k < effects.len() && (#[trigger] effects[k]).operation
                != ProposalOperation::CreateItem && effects[k].item_id == id,
    decreases effects.len(),
{
    if effects.len() > 0 {
        let first = effects.drop_last();
        let last = effects.last();
        only_former_items_are_wired_anew(first, id);
        let before = undone_targets(first);
        let after = undone_targets(effects);
        if before.contains(id) {
            let k = choose|k: int|
                0 <= k < first.len() && (#[trigger] first[k]).operation
                    != ProposalOperation::CreateItem && first[k].item_id == id;
            assert(effects[k] == first[k]);
            let i = choose|i: int| 0 <= i < before.len() && before[i] == id;
            assert(after[i] == id);
        } else if last.operation != ProposalOperation::CreateItem && last.item_id == id {
            assert(after[before.len() as int] == id);
            assert(effects[effects.len() - 1] == last);
        } else {
            assert forall|k: int| 0 <= k < effects.len() implies !((#[trigger] effects[k]).operation
                != ProposalOperation::CreateItem && effects[k].item_id == id) by {
                if k < first.len() {
                    assert(first[k] == effects[k]);
                }
            }
            if after.contains(id) {
                let i = choose|i: int| 0 <= i < after.len() && after[i] == id;
                assert(i < before.len());
                assert(before[i] == id);
            }
        }
    }
}

/// The dependencies of an item are written anew when a trial is taken back exactly if one of
/// the commands of the trial changed the item and did not create it.
pub proof fn only_former_items_of_a_trial_are_wired_anew(
    effects: Seq<TransactionalItemEffect>,
    order: Seq<usize>,
    id: Uuid,
)
    ensures
        trial_targets(effects, order).contains(id) <==> exists|p: int|
            0 <= p < order.len() && effects[#[trigger] order[p] as int].before is Some
                && effects[order[p] as int].after.id == id,
    decreases order.len(),
{
    if order.len() > 0 {
        let first = order.drop_last();
        let last = effects[order.last() as int];
        only_former_items_of_a_trial_are_wired_anew(effects, first, id);
        let before = trial_targets(effects, first);
        let after = trial_targets(effects, order);
        if before.contains(id) {
            let p = choose|p: int|
                0 <= p < first.len() && effects[#[trigger] first[p] as int].before is Some
                    && effects[first[p] as int].after.id == id;
            assert(order[p] == first[p]);
            let i = choose|i: int| 0 <= i < before.len() && before[i] == id;
            assert(after[i] == id);
        } else if last.before is Some && last.after.id == id {
            assert(after[before.len() as int] == id);
            assert(order[order.len() - 1] == order.last());
        } else {
            assert forall|p: int| 0 <= p < order.len() implies !(effects[#[trigger] order[p] as int].before
                is Some && effects[order[p] as int].after.id == id) by {
                if p < first.len() {
                    assert(first[p] == order[p]);
                }
            }
            if after.contains(id) {
                let i = choose|i: int| 0 <= i < after.len() && after[i] == id;
                assert(i < before.len());
                assert(before[i] == id);
            }
        }
    }
}

/// Whether no two members of a review are the same proposal.
pub open spec fn members_differ(members: Seq<StoredPreviewMember>) -> bool {
    forall|i: int, j: int|
        0 <= i < members.len() && 0 <= j < members.len() && i != j ==> (
        #[trigger] members[i]).proposal_id != (#[trigger] members[j]).proposal_id
}

proof fn lemma_member(members: Seq<StoredPreviewMember>, k: int)
    requires
        members_differ(members),
        0 <= k < members.len(),
    ensures
        crate::review::applications::reviewed_payload(members, members[k].proposal_id) == Some(
            members[k].payload_hash@,
        ),
        crate::review::requests::expected_revision(
            crate::review::applications::as_requested(members),
            members[k].proposal_id,
        ) == members[k].proposal_revision,
    decreases k,
{
    let asked = crate::review::applications::as_requested(members);
    if k > 0 {
        assert(members[0].proposal_id != members[k].proposal_id);
        let rest = members.skip(1);
        assert forall|i: int, j: int|
            0 <= i < rest.len() && 0 <= j < rest.len() && i != j implies (
        #[trigger] rest[i]).proposal_id != (#[trigger] rest[j]).proposal_id by {
            assert(rest[i] == members[i + 1] && rest[j] == members[j + 1]);
        }
        lemma_member(rest, k - 1);
        assert(crate::review::applications::as_requested(rest) =~= asked.skip(1));
    }
}

/// A proposal is still the one that was reviewed exactly if it is there, waits for a decision,
/// has the revision that was reviewed, and its payload has the digest that was kept of it.
/// Otherwise the refusal is true.
pub proof fn reviewed_proposals_stand_unchanged(
    members: Seq<StoredPreviewMember>,
    k: int,
    lookup: ProposalLookup,
    document: Option<Vec<u8>>,
)
    requires
        members_differ(members),
        0 <= k < members.len(),
    ensures
        (reviewed_refusal(members, members[k].proposal_id, lookup, document) is None) <==> {
            &&& lookup is Found
            &&& lookup->Found_0.id == members[k].proposal_id
            &&& lookup->Found_0.status == ProposalStatus::Pending
            &&& lookup->Found_0.revision == members[k].proposal_revision
            &&& document is Some
            &&& crate::outside::sha256_of(document->0@) == members[k].payload_hash@
        },
        match reviewed_refusal(members, members[k].proposal_id, lookup, document) {
            None => true,
            Some(Refusal::NotFound) => lookup is Missing,
            Some(Refusal::Internal) => lookup is Unreadable || document is None || (lookup is Found
                && lookup->Found_0.id != members[k].proposal_id),
            Some(Refusal::Stale(ProposalConflictCode::ProposalNotPending)) => lookup is Found
                && lookup->Found_0.status != ProposalStatus::Pending,
            Some(Refusal::RevisionConflict { expected, actual }) => lookup is Found && expected
                == members[k].proposal_revision && actual == lookup->Found_0.revision && expected
                != actual,
            Some(Refusal::Stale(ProposalConflictCode::ProposalRevisionMismatch)) => document is Some
                && crate::outside::sha256_of(document->0@) != members[k].payload_hash@,
            Some(_) => false,
        },
{
    lemma_member(members, k);
}

/// The proposals of a review still stand exactly if each of them does.
pub proof fn reviews_stand_while_their_proposals_do(
    members: Seq<StoredPreviewMember>,
    ids: Seq<Uuid>,
    lookups: Seq<ProposalLookup>,
    documents: Seq<Option<Vec<u8>>>,
    k: int,
)
    requires
        0 <= k,
    ensures
        (first_reviewed_refusal(members, ids, lookups, documents, k) is None) <==> forall|i: int|
            k <= i < ids.len() ==> #[trigger] reviewed_refusal(
                members,
                ids[i],
                lookups[i],
                documents[i],
            ) is None,
    decreases ids.len() - k,
{
    if k < ids.len() {
        reviews_stand_while_their_proposals_do(members, ids, lookups, documents, k + 1);
        if first_reviewed_refusal(members, ids, lookups, documents, k) is None {
            assert forall|i: int| k <= i < ids.len() implies #[trigger] reviewed_refusal(
                members,
                ids[i],
                lookups[i],
                documents[i],
            ) is None by {}
        } else {
            assert(reviewed_refusal(members, ids[k], lookups[k], documents[k]) is Some
                || first_reviewed_refusal(members, ids, lookups, documents, k + 1) is Some);
        }
    }
}

/// A proposal is accepted with its change set exactly while it waits and has not run out.
pub proof fn only_open_proposals_are_accepted(proposal: Proposal, now: Instant)
    requires
        proposal.revision < i64::MAX,
    ensures
        acceptable(proposal, now) <==> proposal.status == ProposalStatus::Pending && now
            < proposal.expires_at,
        acceptable(proposal, now) ==> !crate::proposals::domain::due(proposal, now),
{
}

/// An application that is undone cannot be undone once more, and time does not bring back
/// what it has refused: what is refused as too late stays refused.
pub proof fn undo_stays_refused(
    application: StoredApplication,
    expected: u64,
    now: Instant,
    later: Instant,
)
    requires
        now <= later,
    ensures
        undo_refusal(application, expected, now) is Some ==> undo_refusal(
            application,
            expected,
            later,
        ) is Some,
        (undo_refusal(application, expected, now) is None) <==> application.status
            == ProposalApplicationStatus::Applied && application.revision == expected && now
            < application.undo_expires_at,
{
}

/// What an application is refused for is what its review would show as a conflict: the refusal
/// and the conflict of an error of the item store tell the same.
pub proof fn refusals_agree_with_conflicts(
    command: crate::proposals::application::ProposalCommand,
    error: crate::items::model::ItemRepositoryError,
)
    ensures
        ({
            let conflict = crate::review::conflicts::conflict_of(command, error);
            match crate::review::errors::item_refusal(error) {
                Refusal::Stale(code) => code == conflict.code && code
                    != ProposalConflictCode::ItemNotFound && code
                    != ProposalConflictCode::ItemRevisionMismatch,
                Refusal::NotFound => conflict.code == ProposalConflictCode::ItemNotFound,
                Refusal::RevisionConflict { expected, actual } => conflict.expected_revision
                    == Some(expected) && conflict.actual_revision == Some(actual),
                Refusal::Internal => conflict.code == ProposalConflictCode::InvalidItem,
                _ => false,
            }
        }),
        (error is Duplicate || error is ParentNotFound || error is HierarchyCycle || error
            is SelfParent || error is DependencyNotFound || error is DependencyCycle || error
            is InvalidParentState || error is NonLeafExecutable || error is HasChildren || error
            is DeletedParent || error is ActiveExecutionConflict || error
            is CrossRecurringSubtreeDependency || error is InvalidItem)
            <==> crate::review::errors::item_refusal(error) is Stale,
{
}

/// A request that is made again is answered with what it led to, and never carried out twice;
/// its key cannot be used for another request; and a key that was not used is free.
pub proof fn requests_are_answered_once(
    stored: Option<crate::review::errors::RequestRow>,
    request_hash: Seq<u8>,
)
    requires
        request_hash.len() == 32,
        stored is Some ==> stored->0.request_hash@.len() == 32,
    ensures
        stored is None <==> crate::review::errors::replayed_application(stored, request_hash)
            == Ok::<Option<Uuid>, Refusal>(None),
        stored is Some && stored->0.request_hash@ == request_hash
            ==> crate::review::errors::replayed_application(stored, request_hash) == Ok::<
            Option<Uuid>,
            Refusal,
        >(Some(stored->0.application_id)),
        stored is Some && stored->0.request_hash@ != request_hash
            ==> crate::review::errors::replayed_application(stored, request_hash) == Err::<
            Option<Uuid>,
            Refusal,
        >(Refusal::IdempotencyConflict),
{
}

/// A stored review is whole exactly if it has as many proposals and commands as it says, the
/// commands have the digest that was kept of them, and all that it stands for has its own.
pub proof fn whole_reviews_are_what_was_sealed(
    preview: crate::review::previews::StoredPreview,
    scope: crate::time::DatabaseScope,
    members: Seq<StoredPreviewMember>,
    proposal_count: nat,
    command_count: nat,
    commands_document: Seq<u8>,
)
    ensures
        crate::review::applications::preview_whole(
            preview,
            scope,
            members,
            proposal_count,
            command_count,
            commands_document,
        ) <==> {
            &&& members.len() == preview.proposal_count
            &&& proposal_count == members.len()
            &&& command_count == preview.command_count
            &&& preview.commands_hash@ == crate::outside::sha256_of(commands_document)
            &&& preview.preview_hash@ == crate::outside::sha256_of(
                crate::review::hashes::preview_bytes(
                    crate::review::hashes::PreviewSeal {
                        preview_id: preview.id,
                        scope,
                        command_count: preview.command_count as u64,
                        commands_hash: preview.commands_hash@,
                        canonical_hash: preview.canonical_hash@,
                        review_content_hash: preview.review_content_hash@,
                        can_apply: preview.can_apply,
                        created_at: preview.created_at,
                        expires_at: preview.expires_at,
                    },
                    members,
                ),
            )
        },
{
}

/// What was looked up for the proposals that are named is one proposal for each of them, in
/// their order.
pub proof fn named_proposals_are_looked_up(
    named: Seq<Uuid>,
    ids: Seq<Uuid>,
    lookups: Seq<ProposalLookup>,
    proposals: Seq<Proposal>,
    k: int,
)
    requires
        crate::review::decisions::all_looked_up(named, ids, lookups, proposals),
        0 <= k < named.len(),
    ensures
        proposals.len() == named.len(),
        exists|place: int|
            0 <= place < ids.len() && #[trigger] ids[place] == named[k] && lookups[place]
                == ProposalLookup::Found(proposals[k]),
{
    assert(crate::review::requests::looked_up(ids, lookups, named[k], proposals[k]));
}

} // verus!
