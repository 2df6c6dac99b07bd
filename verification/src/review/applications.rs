//! The application of an approved review: which checks it passes, and what is recorded
//! of it.
use vstd::prelude::*;

use crate::hashing::{hash_bytes, same_hash};
use crate::items::commands::TransactionalItemEffect;
use crate::items::model::Item;
use crate::items::storage::event_deduplication_key;
use crate::proposals::application::{
    ProposalApplicationReceipt, ProposalApplicationStatus, ProposalAppliedMember, ProposalCommand,
    ProposalConflictCode, ProposalPreviewMember,
};
use crate::proposals::domain::{DecisionKind, Proposal, ProposalStatus};
use crate::review::diffs::find_item;
use crate::review::errors::{
    operation_name, parse_application_status, positive_usize, revision_i64, revision_u64,
    ProposalApplicationError,
};
use crate::review::hashes::{calculate_preview_hash, snapshot_hash, StoredPreviewMember};
use crate::review::previews::StoredPreview;
use crate::review::requests::{all_named_once, requested_proposals, ProposalLookup};
use crate::time::{DatabaseScope, Instant, Uuid};

verus! {

/// How long an application can be undone: a day, in nanoseconds.
pub const UNDO_TTL: i128 = 86_400_000_000_000;

/// Whether a review can be applied: it must be the one that was approved, and one
/// without conflicts.
pub fn check_review(preview: &StoredPreview, expected_hash: &[u8; 32]) -> (result: Result<
    (),
    ProposalApplicationError,
>)
    ensures
        match result {
            Ok(_) => preview.preview_hash@ == expected_hash@ && preview.can_apply,
            Err(error) => error@ == crate::review::errors::Refusal::Stale(
                if preview.preview_hash@ != expected_hash@ {
                    ProposalConflictCode::PreviewMismatch
                } else {
                    ProposalConflictCode::PreviewNotApplicable
                },
            ) && !(preview.preview_hash@ == expected_hash@ && preview.can_apply),
        },
{
    if !same_hash(&preview.preview_hash, expected_hash) {
        return Err(ProposalApplicationError::Stale(ProposalConflictCode::PreviewMismatch));
    }
    if !preview.can_apply {
        return Err(ProposalApplicationError::Stale(ProposalConflictCode::PreviewNotApplicable));
    }
    Ok(())
}

/// The members of a stored review as members of a request.
pub open spec fn as_requested(members: Seq<StoredPreviewMember>) -> Seq<ProposalPreviewMember> {
    members.map_values(
        |member: StoredPreviewMember|
            ProposalPreviewMember {
                proposal_id: member.proposal_id,
                expected_revision: member.proposal_revision,
            },
    )
}

/// The members of a stored review as members of a request.
pub fn requested_members(members: &Vec<StoredPreviewMember>) -> (result: Vec<ProposalPreviewMember>)
    ensures
        result@ == as_requested(members@),
{
    let mut requested: Vec<ProposalPreviewMember> = Vec::new();
    let mut i: usize = 0;
    while i < members.len()
        invariant
            i <= members.len(),
            requested@ == as_requested(members@).take(i as int),
        decreases members.len() - i,
    {
        requested.push(
            ProposalPreviewMember {
                proposal_id: members[i].proposal_id,
                expected_revision: members[i].proposal_revision,
            },
        );
        i = i + 1;
        assert(requested@ =~= as_requested(members@).take(i as int));
    }
    assert(as_requested(members@).take(i as int) =~= as_requested(members@));
    requested
}

/// The digest of the payload that a proposal had when it was reviewed.
pub open spec fn reviewed_payload(members: Seq<StoredPreviewMember>, id: Uuid) -> Option<Seq<u8>>
    decreases members.len(),
{
    if members.len() == 0 {
        None
    } else if members[0].proposal_id == id {
        Some(members[0].payload_hash@)
    } else {
        reviewed_payload(members.skip(1), id)
    }
}

/// Why a proposal is no longer the one that was reviewed. `document` is its payload as
/// it is written down.
pub open spec fn reviewed_refusal(
    members: Seq<StoredPreviewMember>,
    id: Uuid,
    lookup: ProposalLookup,
    document: Option<Vec<u8>>,
) -> Option<crate::review::errors::Refusal> {
    match lookup {
        ProposalLookup::Missing => Some(crate::review::errors::Refusal::NotFound),
        ProposalLookup::Unreadable => Some(crate::review::errors::Refusal::Internal),
        ProposalLookup::Found(proposal) => if proposal.status != ProposalStatus::Pending {
            Some(crate::review::errors::Refusal::Stale(ProposalConflictCode::ProposalNotPending))
        } else if crate::review::requests::lookup_refusal(
            as_requested(members),
            id,
            lookup,
        ) is Some {
            crate::review::requests::lookup_refusal(as_requested(members), id, lookup)
        } else {
            match document {
                None => Some(crate::review::errors::Refusal::Internal),
                Some(bytes) => if Some(crate::outside::sha256_of(bytes@)) != reviewed_payload(
                    members,
                    id,
                ) {
                    Some(
                        crate::review::errors::Refusal::Stale(
                            ProposalConflictCode::ProposalRevisionMismatch,
                        ),
                    )
                } else {
                    None
                },
            }
        },
    }
}

/// Why the proposals from place `k` on are no longer those that were reviewed.
pub open spec fn first_reviewed_refusal(
    members: Seq<StoredPreviewMember>,
    ids: Seq<Uuid>,
    lookups: Seq<ProposalLookup>,
    documents: Seq<Option<Vec<u8>>>,
    k: int,
) -> Option<crate::review::errors::Refusal>
    decreases ids.len() - k,
{
    if k < 0 || k >= ids.len() {
        None
    } else {
        match reviewed_refusal(members, ids[k], lookups[k], documents[k]) {
            Some(refusal) => Some(refusal),
            None => first_reviewed_refusal(members, ids, lookups, documents, k + 1),
        }
    }
}

fn find_member(members: &Vec<StoredPreviewMember>, id: Uuid) -> (result: Option<usize>)
    ensures
        match result {
            Some(k) => {
                &&& k < members@.len()
                &&& members@[k as int].proposal_id == id
                &&& reviewed_payload(members@, id) == Some(members@[k as int].payload_hash@)
                &&& crate::review::requests::expected_revision(as_requested(members@), id)
                    == members@[k as int].proposal_revision
            },
            None => reviewed_payload(members@, id) is None
                && crate::review::requests::expected_revision(as_requested(members@), id) == 0,
        },
{
    let mut i: usize = 0;
    assert(members@.skip(0) =~= members@);
    while i < members.len()
        invariant
            i <= members.len(),
            reviewed_payload(members@, id) == reviewed_payload(members@.skip(i as int), id),
            crate::review::requests::expected_revision(as_requested(members@), id)
                == crate::review::requests::expected_revision(
                as_requested(members@.skip(i as int)),
                id,
            ),
        decreases members.len() - i,
    {
        proof {
            let rest = members@.skip(i as int);
            assert(rest[0] == members@[i as int]);
            assert(rest.skip(1) =~= members@.skip(i + 1));
            assert(as_requested(rest).skip(1) =~= as_requested(members@.skip(i + 1)));
        }
        if members[i].proposal_id == id {
            return Some(i);
        }
        i = i + 1;
    }
    None
}

fn check_reviewed(
    members: &Vec<StoredPreviewMember>,
    id: Uuid,
    lookup: &ProposalLookup,
    document: &Option<Vec<u8>>,
) -> (result: Result<(), ProposalApplicationError>)
    ensures
        match result {
            Ok(_) => reviewed_refusal(members@, id, *lookup, *document) is None,
            Err(error) => reviewed_refusal(members@, id, *lookup, *document) == Some(error@),
        },
{
    match lookup {
        ProposalLookup::Missing => Err(ProposalApplicationError::NotFound),
        ProposalLookup::Unreadable => Err(ProposalApplicationError::Internal),
        ProposalLookup::Found(proposal) => {
            if proposal.status != ProposalStatus::Pending {
                return Err(
                    ProposalApplicationError::Stale(ProposalConflictCode::ProposalNotPending),
                );
            }
            if proposal.id != id {
                return Err(ProposalApplicationError::Internal);
            }
            let place: Option<usize> = find_member(members, id);
            let expected: u64 = match place {
                Some(k) => members[k].proposal_revision,
                None => 0,
            };
            if proposal.revision != expected {
                return Err(
                    ProposalApplicationError::RevisionConflict {
                        expected,
                        actual: proposal.revision,
                    },
                );
            }
            let payload_hash: [u8; 32] = match document {
                Some(bytes) => hash_bytes(bytes),
                None => {
                    return Err(ProposalApplicationError::Internal);
                },
            };
            let same: bool = match place {
                Some(k) => same_hash(&payload_hash, &members[k].payload_hash),
                None => false,
            };
            if same {
                Ok(())
            } else {
                Err(
                    ProposalApplicationError::Stale(
                        ProposalConflictCode::ProposalRevisionMismatch,
                    ),
                )
            }
        },
    }
}

proof fn lemma_reviewed_are_requested(
    members: Seq<StoredPreviewMember>,
    ids: Seq<Uuid>,
    lookups: Seq<ProposalLookup>,
    documents: Seq<Option<Vec<u8>>>,
    k: int,
)
    requires
        first_reviewed_refusal(members, ids, lookups, documents, k) is None,
        0 <= k,
    ensures
        crate::review::requests::first_lookup_refusal(as_requested(members), ids, lookups, k)
            is None,
    decreases ids.len() - k,
{
    if k < ids.len() {
        lemma_reviewed_are_requested(members, ids, lookups, documents, k + 1);
    }
}

/// The proposals that a stored review is about, in its order: each must still be the one
/// that was reviewed, undecided, at its revision and with its payload.
///
/// `ids` are those of the review in the order in which they are looked up, `lookups`
/// what was found, and `documents` the payloads as they are written down.
pub fn reviewed_proposals(
    members: &Vec<StoredPreviewMember>,
    ids: &Vec<Uuid>,
    lookups: Vec<ProposalLookup>,
    documents: &Vec<Option<Vec<u8>>>,
) -> (result: Result<Vec<Proposal>, ProposalApplicationError>)
    requires
        crate::review::requests::lookup_order(as_requested(members@), ids@),
        lookups@.len() == ids@.len(),
        documents@.len() == ids@.len(),
    ensures
        match first_reviewed_refusal(members@, ids@, lookups@, documents@, 0) {
            Some(refusal) => result matches Err(error) && error@ == refusal,
            None => match result {
                Ok(proposals) => {
                    &&& crate::review::requests::named_once(as_requested(members@))
                    &&& proposals@.len() == members@.len()
                    &&& forall|k: int|
                        0 <= k < members@.len() ==> crate::review::requests::looked_up(
                            ids@,
                            lookups@,
                            members@[k].proposal_id,
                            #[trigger] proposals@[k],
                        )
                },
                Err(error) => error@ == crate::review::errors::Refusal::Internal
                    && !crate::review::requests::named_once(as_requested(members@)),
            },
        },
{
    let mut k: usize = 0;
    while k < ids.len()
        invariant
            k <= ids.len(),
            lookups@.len() == ids@.len(),
            documents@.len() == ids@.len(),
            first_reviewed_refusal(members@, ids@, lookups@, documents@, 0)
                == first_reviewed_refusal(members@, ids@, lookups@, documents@, k as int),
        decreases ids.len() - k,
    {
        match check_reviewed(members, ids[k], &lookups[k], &documents[k]) {
            Ok(_) => {},
            Err(error) => {
                return Err(error);
            },
        }
        k = k + 1;
    }
    let requested: Vec<ProposalPreviewMember> = requested_members(members);
    if !all_named_once(&requested) {
        return Err(ProposalApplicationError::Internal);
    }
    proof {
        lemma_reviewed_are_requested(members@, ids@, lookups@, documents@, 0);
    }
    let ghost found = lookups@;
    match requested_proposals(&requested, ids, lookups) {
        Ok(proposals) => {
            assert forall|k: int| 0 <= k < members@.len() implies crate::review::requests::looked_up(
                ids@,
                found,
                members@[k].proposal_id,
                #[trigger] proposals@[k],
            ) by {
                assert(requested@[k].proposal_id == members@[k].proposal_id);
            }
            Ok(proposals)
        },
        Err(error) => Err(error),
    }
}

/// Whether a review has not expired.
pub fn check_review_time(preview: &StoredPreview, now: Instant) -> (result: Result<
    (),
    ProposalApplicationError,
>)
    ensures
        match result {
            Ok(_) => preview.expires_at > now,
            Err(error) => preview.expires_at <= now && error@
                == crate::review::errors::Refusal::Stale(ProposalConflictCode::PreviewExpired),
        },
{
    if preview.expires_at <= now {
        Err(ProposalApplicationError::Stale(ProposalConflictCode::PreviewExpired))
    } else {
        Ok(())
    }
}

/// Whether a stored review is whole: its counts and its digest of the commands are those
/// of the proposals, and its own digest is that of its parts.
pub open spec fn preview_whole(
    preview: StoredPreview,
    scope: DatabaseScope,
    members: Seq<StoredPreviewMember>,
    proposal_count: nat,
    command_count: nat,
    commands_document: Seq<u8>,
) -> bool {
    &&& members.len() == preview.proposal_count
    &&& proposal_count == preview.proposal_count
    &&& command_count == preview.command_count
    &&& crate::outside::sha256_of(commands_document) == preview.commands_hash@
    &&& crate::review::previews::sealed_hash(preview, scope, members) == preview.preview_hash@
}

/// Whether a stored review is whole.
pub fn validate_stored_preview(
    preview: &StoredPreview,
    scope: DatabaseScope,
    members: &Vec<StoredPreviewMember>,
    proposals: &Vec<Proposal>,
    commands: &Vec<ProposalCommand>,
    commands_document: &Vec<u8>,
) -> (result: Result<(), ProposalApplicationError>)
    requires
        crate::review::hashes::micros_fit(preview.created_at),
        crate::review::hashes::micros_fit(preview.expires_at),
    ensures
        match result {
            Ok(_) => preview_whole(
                *preview,
                scope,
                members@,
                proposals@.len(),
                commands@.len(),
                commands_document@,
            ),
            Err(error) => error@ == crate::review::errors::Refusal::Internal && !preview_whole(
                *preview,
                scope,
                members@,
                proposals@.len(),
                commands@.len(),
                commands_document@,
            ),
        },
{
    if members.len() != preview.proposal_count || proposals.len() != preview.proposal_count
        || commands.len() != preview.command_count {
        return Err(ProposalApplicationError::Internal);
    }
    let commands_hash: [u8; 32] = hash_bytes(commands_document);
    if !same_hash(&commands_hash, &preview.commands_hash) {
        return Err(ProposalApplicationError::Internal);
    }
    let expected: [u8; 32] = calculate_preview_hash(
        preview.id,
        scope,
        members,
        preview.command_count,
        &preview.commands_hash,
        &preview.canonical_hash,
        &preview.review_content_hash,
        preview.can_apply,
        preview.created_at,
        preview.expires_at,
    );
    if same_hash(&expected, &preview.preview_hash) {
        Ok(())
    } else {
        Err(ProposalApplicationError::Internal)
    }
}

/// Whether the items are still those that a review was made against.
pub fn check_canonical_items(preview: &StoredPreview, canonical_hash: &[u8; 32]) -> (result: Result<
    (),
    ProposalApplicationError,
>)
    ensures
        match result {
            Ok(_) => preview.canonical_hash@ == canonical_hash@,
            Err(error) => preview.canonical_hash@ != canonical_hash@ && error@
                == crate::review::errors::Refusal::Stale(ProposalConflictCode::PreviewMismatch),
        },
{
    if same_hash(canonical_hash, &preview.canonical_hash) {
        Ok(())
    } else {
        Err(ProposalApplicationError::Stale(ProposalConflictCode::PreviewMismatch))
    }
}

/// The items that a batch changed. A batch that changed none is an error.
pub fn changed_items(ids: Vec<Uuid>) -> (result: Result<Vec<Uuid>, ProposalApplicationError>)
    ensures
        match result {
            Ok(changed) => changed == ids && ids@.len() > 0,
            Err(error) => ids@.len() == 0 && error@ == crate::review::errors::Refusal::Internal,
        },
{
    if ids.len() == 0 {
        Err(ProposalApplicationError::Internal)
    } else {
        Ok(ids)
    }
}

/// An application as it is first stored.
#[derive(Clone, Copy, Debug, PartialEq, Eq, Structural)]
pub struct ApplicationHeader {
    pub effect_count: i16,
    pub fence_count: i32,
    pub applied_at: Instant,
    pub undo_expires_at: Instant,
}

/// An application as it is first stored: with how many commands and changed items, and
/// until when it can be undone.
pub fn application_header(command_count: usize, changed_count: usize, now: Instant) -> (result:
    Result<ApplicationHeader, ProposalApplicationError>)
    requires
        crate::time::in_time_range(now),
    ensures
        match result {
            Ok(header) => {
                &&& header.effect_count == command_count
                &&& header.fence_count == changed_count
                &&& header.applied_at == now
                &&& header.undo_expires_at == now + 24 * 60 * 60 * 1_000_000_000
            },
            Err(error) => error@ == crate::review::errors::Refusal::Internal && (command_count
                > i16::MAX || changed_count > i32::MAX),
        },
{
    if command_count > 0x7fff || changed_count > 0x7fff_ffff {
        return Err(ProposalApplicationError::Internal);
    }
    Ok(
        ApplicationHeader {
            effect_count: command_count as i16,
            fence_count: changed_count as i32,
            applied_at: now,
            undo_expires_at: now + UNDO_TTL,
        },
    )
}

/// What a command did, as it is written down.
#[derive(Debug)]
pub struct EffectDocuments {
    pub command: Vec<u8>,
    pub before: Option<Vec<u8>>,
    pub after: Vec<u8>,
}

/// What is stored of a command that was carried out, besides the states of its item.
#[derive(Debug)]
pub struct AppliedEffectRow {
    pub ordinal: i16,
    pub review_ordinal: i16,
    pub command_id: Uuid,
    pub operation: &'static str,
    pub command_hash: [u8; 32],
    pub item_id: Uuid,
    pub expected_revision: Option<i64>,
    pub before_revision: Option<i64>,
    pub after_revision: i64,
    pub before_deleted: Option<bool>,
    pub after_deleted: bool,
    pub before_snapshot_hash: Option<[u8; 32]>,
    pub after_snapshot_hash: [u8; 32],
}

/// Whether an optional revision is stored in an optional column.
pub open spec fn optional_revision_fits(revision: Option<u64>, stored: Option<i64>) -> bool {
    match (revision, stored) {
        (Some(value), Some(column)) => value == column,
        (None, None) => true,
        _ => false,
    }
}

/// Whether a row tells what a command did: `last` is the state of its item after the
/// whole batch.
pub open spec fn effect_row_fits(
    row: AppliedEffectRow,
    k: int,
    command: ProposalCommand,
    effect: TransactionalItemEffect,
    last: Item,
    documents: EffectDocuments,
) -> bool {
    &&& row.ordinal == effect.execution_ordinal
    &&& row.review_ordinal == k
    &&& row.command_id == command.spec_command_id()
    &&& row.operation@ == crate::review::errors::operation_name_text(command.spec_operation())
    &&& row.command_hash@ == crate::outside::sha256_of(documents.command@)
    &&& row.item_id == command.spec_target()
    &&& optional_revision_fits(command.spec_expected_revision(), row.expected_revision)
    &&& row.after_revision == last.revision
    &&& row.after_deleted == (last.deleted_at is Some)
    &&& row.after_snapshot_hash@ == crate::review::hashes::snapshot_digest(documents.after@)
    &&& match (effect.before, documents.before) {
        (Some(before), Some(document)) => {
            &&& row.before_revision == Some(before.revision as i64)
            &&& before.revision <= i64::MAX
            &&& row.before_deleted == Some(before.deleted_at is Some)
            &&& row.before_snapshot_hash matches Some(hash) && hash@
                == crate::review::hashes::snapshot_digest(document@)
        },
        (None, _) => {
            &&& row.before_revision is None
            &&& row.before_deleted is None
            &&& row.before_snapshot_hash is None
        },
        (Some(_), None) => false,
    }
}

/// Whether what a command did can be stored.
pub open spec fn effect_storable(
    k: int,
    command: ProposalCommand,
    effect: TransactionalItemEffect,
    items: Seq<Item>,
    documents: EffectDocuments,
) -> bool {
    &&& crate::review::diffs::item_with_id(items, command.spec_target()) matches Some(last)
        && last.revision <= i64::MAX
    &&& effect.execution_ordinal <= i16::MAX
    &&& k <= i16::MAX
    &&& command.spec_expected_revision() matches Some(expected) ==> expected <= i64::MAX
    &&& effect.before matches Some(before) ==> before.revision <= i64::MAX && documents.before
        is Some
}

fn optional_revision(revision: Option<u64>) -> (result: Result<
    Option<i64>,
    ProposalApplicationError,
>)
    ensures
        match result {
            Ok(stored) => optional_revision_fits(revision, stored),
            Err(error) => error@ == crate::review::errors::Refusal::Internal && (
            revision matches Some(value) && value > i64::MAX),
        },
{
    match revision {
        Some(value) => Ok(Some(revision_i64(value)?)),
        None => Ok(None),
    }
}

fn effect_row(
    k: usize,
    command: &ProposalCommand,
    effect: &TransactionalItemEffect,
    items: &Vec<Item>,
    documents: &EffectDocuments,
) -> (result: Result<AppliedEffectRow, ProposalApplicationError>)
    ensures
        match result {
            Ok(row) => effect_storable(k as int, *command, *effect, items@, *documents)
                && effect_row_fits(
                row,
                k as int,
                *command,
                *effect,
                crate::review::diffs::item_with_id(items@, command.spec_target())->0,
                *documents,
            ),
            Err(error) => error@ == crate::review::errors::Refusal::Internal && !effect_storable(
                k as int,
                *command,
                *effect,
                items@,
                *documents,
            ),
        },
{
    let last: &Item = match find_item(items, command.target_item_id()) {
        Some(item) => item,
        None => {
            return Err(ProposalApplicationError::Internal);
        },
    };
    let after_revision: i64 = revision_i64(last.revision)?;
    if effect.execution_ordinal > 0x7fff || k > 0x7fff {
        return Err(ProposalApplicationError::Internal);
    }
    let expected_revision: Option<i64> = optional_revision(command.expected_revision())?;
    let (before_revision, before_deleted, before_snapshot_hash): (
        Option<i64>,
        Option<bool>,
        Option<[u8; 32]>,
    ) = match &effect.before {
        Some(before) => {
            let revision: i64 = revision_i64(before.revision)?;
            match &documents.before {
                Some(document) => (
                    Some(revision),
                    Some(before.deleted_at.is_some()),
                    Some(snapshot_hash(document)),
                ),
                None => {
                    return Err(ProposalApplicationError::Internal);
                },
            }
        },
        None => (None, None, None),
    };
    Ok(
        AppliedEffectRow {
            ordinal: effect.execution_ordinal as i16,
            review_ordinal: k as i16,
            command_id: command.command_id(),
            operation: operation_name(command.operation()),
            command_hash: hash_bytes(&documents.command),
            item_id: command.target_item_id(),
            expected_revision,
            before_revision,
            after_revision,
            before_deleted,
            after_deleted: last.deleted_at.is_some(),
            before_snapshot_hash,
            after_snapshot_hash: snapshot_hash(&documents.after),
        },
    )
}

/// What is stored of the commands that were carried out, in the order of the review.
/// `items` are the changed items after the whole batch.
pub fn effect_rows(
    commands: &Vec<ProposalCommand>,
    effects: &Vec<TransactionalItemEffect>,
    items: &Vec<Item>,
    documents: &Vec<EffectDocuments>,
) -> (result: Result<Vec<AppliedEffectRow>, ProposalApplicationError>)
    requires
        documents@.len() == commands@.len(),
    ensures
        match result {
            Ok(rows) => {
                &&& effects@.len() == commands@.len()
                &&& rows@.len() == commands@.len()
                &&& forall|k: int|
                    0 <= k < rows@.len() ==> effect_row_fits(
                        #[trigger] rows@[k],
                        k,
                        commands@[k],
                        effects@[k],
                        crate::review::diffs::item_with_id(
                            items@,
                            commands@[k].spec_target(),
                        )->0,
                        documents@[k],
                    ) && effect_storable(k, commands@[k], effects@[k], items@, documents@[k])
            },
            Err(error) => error@ == crate::review::errors::Refusal::Internal && (effects@.len()
                != commands@.len() || exists|k: int|
                0 <= k < commands@.len() && !#[trigger] effect_storable(
                    k,
                    commands@[k],
                    effects@[k],
                    items@,
                    documents@[k],
                )),
        },
{
    if commands.len() != effects.len() {
        return Err(ProposalApplicationError::Internal);
    }
    let mut rows: Vec<AppliedEffectRow> = Vec::new();
    let mut k: usize = 0;
    while k < commands.len()
        invariant
            k <= commands@.len(),
            effects@.len() == commands@.len(),
            documents@.len() == commands@.len(),
            rows@.len() == k,
            forall|j: int|
                0 <= j < k ==> effect_row_fits(
                    #[trigger] rows@[j],
                    j,
                    commands@[j],
                    effects@[j],
                    crate::review::diffs::item_with_id(items@, commands@[j].spec_target())->0,
                    documents@[j],
                ) && effect_storable(j, commands@[j], effects@[j], items@, documents@[j]),
        decreases commands.len() - k,
    {
        let row: AppliedEffectRow = match effect_row(
            k,
            &commands[k],
            &effects[k],
            items,
            &documents[k],
        ) {
            Ok(row) => row,
            Err(error) => {
                assert(!effect_storable(
                    k as int,
                    commands@[k as int],
                    effects@[k as int],
                    items@,
                    documents@[k as int],
                ));
                return Err(error);
            },
        };
        rows.push(row);
        k = k + 1;
    }
    Ok(rows)
}

/// The state of a changed item that undoing the application relies on.
#[derive(Clone, Copy, Debug, PartialEq, Eq, Structural)]
pub struct FenceRow {
    pub item_id: Uuid,
    pub applied_revision: i64,
    pub applied_deleted: bool,
}

/// The states of the changed items that undoing the application relies on.
pub fn fence_rows(items: &Vec<Item>) -> (result: Result<Vec<FenceRow>, ProposalApplicationError>)
    ensures
        match result {
            Ok(rows) => rows@.len() == items@.len() && forall|k: int|
                0 <= k < items@.len() ==> {
                    &&& (#[trigger] rows@[k]).item_id == items@[k].id
                    &&& rows@[k].applied_revision == items@[k].revision
                    &&& rows@[k].applied_deleted == (items@[k].deleted_at is Some)
                },
            Err(error) => error@ == crate::review::errors::Refusal::Internal && exists|k: int|
                0 <= k < items@.len() && (#[trigger] items@[k]).revision > i64::MAX,
        },
{
    let mut rows: Vec<FenceRow> = Vec::new();
    let mut i: usize = 0;
    while i < items.len()
        invariant
            i <= items.len(),
            rows@.len() == i,
            forall|k: int|
                0 <= k < i ==> {
                    &&& (#[trigger] rows@[k]).item_id == items@[k].id
                    &&& rows@[k].applied_revision == items@[k].revision
                    &&& rows@[k].applied_deleted == (items@[k].deleted_at is Some)
                },
        decreases items.len() - i,
    {
        let revision: i64 = match revision_i64(items[i].revision) {
            Ok(revision) => revision,
            Err(error) => {
                assert(items@[i as int].revision > i64::MAX);
                return Err(error);
            },
        };
        rows.push(
            FenceRow {
                item_id: items[i].id,
                applied_revision: revision,
                applied_deleted: items[i].deleted_at.is_some(),
            },
        );
        i = i + 1;
    }
    Ok(rows)
}

/// What is written of a proposal that was applied.
#[derive(Debug)]
pub struct AcceptedProposal {
    pub proposal_id: Uuid,
    pub base_revision: i64,
    pub revision: i64,
    /// The key under which subscribers are told of it once.
    pub deduplication_key: String,
}

/// Whether a proposal can be accepted at an instant.
pub open spec fn acceptable(proposal: Proposal, now: Instant) -> bool {
    &&& proposal.status == ProposalStatus::Pending
    &&& proposal.expires_at > now
    &&& proposal.revision < i64::MAX
}

/// What is written of a proposal that was applied: it is accepted, under its next
/// revision.
pub fn accept_proposal(proposal: &Proposal, now: Instant) -> (result: Result<
    AcceptedProposal,
    ProposalApplicationError,
>)
    ensures
        match result {
            Ok(accepted) => {
                &&& acceptable(*proposal, now)
                &&& accepted.proposal_id == proposal.id
                &&& accepted.base_revision == proposal.revision
                &&& accepted.revision == proposal.revision + 1
                &&& accepted.deduplication_key@ == crate::items::storage::event_key(
                    "proposal.accepted"@,
                    proposal.id,
                    (proposal.revision + 1) as u64,
                )
            },
            Err(error) => !acceptable(*proposal, now) && error@
                == crate::review::errors::Refusal::Internal,
        },
{
    if proposal.revision >= 0x7fff_ffff_ffff_ffff {
        return Err(ProposalApplicationError::Internal);
    }
    let mut accepted: Proposal = proposal.clone();
    match accepted.decide(DecisionKind::Accept, None, now) {
        Ok(_) => {},
        Err(_) => {
            return Err(ProposalApplicationError::Internal);
        },
    }
    let base_revision: i64 = revision_i64(proposal.revision)?;
    let revision: i64 = revision_i64(accepted.revision)?;
    Ok(
        AcceptedProposal {
            proposal_id: proposal.id,
            base_revision,
            revision,
            deduplication_key: event_deduplication_key(
                "proposal.accepted",
                proposal.id,
                accepted.revision,
            ),
        },
    )
}

/// The columns of a stored application.
#[derive(Debug)]
pub struct ApplicationRow {
    pub status: String,
    pub revision: i16,
    pub applied_at: Instant,
    pub undo_expires_at: Instant,
    pub undone_at: Option<Instant>,
}

/// What is written to an application that is undone.
#[derive(Clone, Copy, Debug)]
pub struct UndoneMark {
    pub status: &'static str,
    pub revision: i16,
    pub undone_at: Instant,
}

/// What is written to an application that is undone at `now`.
pub fn undone_mark(now: Instant) -> (result: UndoneMark)
    ensures
        result.status@ == crate::review::errors::application_status_text(
            ProposalApplicationStatus::Undone,
        ),
        result.revision == 2,
        result.undone_at == now,
{
    UndoneMark { status: "undone", revision: 2, undone_at: now }
}

/// Whether a row is that of an application with the mark of its undoing.
pub open spec fn marked_undone(before: ApplicationRow, mark: UndoneMark, after: ApplicationRow) -> bool {
    &&& after.status@ == mark.status@
    &&& after.revision == mark.revision
    &&& after.undone_at == Some(mark.undone_at)
    &&& after.applied_at == before.applied_at
    &&& after.undo_expires_at == before.undo_expires_at
}

/// The columns of a proposal of an application: the revision at which it was reviewed.
#[derive(Clone, Copy, Debug, PartialEq, Eq, Structural)]
pub struct AppliedMemberRow {
    pub proposal_id: Uuid,
    pub proposal_revision: i64,
}

/// Whether the columns hold an application.
pub open spec fn application_row_sound(row: ApplicationRow, members: Seq<AppliedMemberRow>) -> bool {
    &&& exists|status: ProposalApplicationStatus|
        row.status@ == #[trigger] crate::review::errors::application_status_text(status)
    &&& row.revision >= 0
    &&& forall|k: int| 0 <= k < members.len() ==> (#[trigger] members[k]).proposal_revision >= 0
}

/// What is known of an application, from what is stored of it.
#[verifier::loop_isolation(false)]
pub fn application_receipt(
    application_id: Uuid,
    row: Option<ApplicationRow>,
    members: &Vec<AppliedMemberRow>,
    command_ids: Vec<Uuid>,
    affected_item_ids: Vec<Uuid>,
) -> (result: Result<ProposalApplicationReceipt, ProposalApplicationError>)
    ensures
        match (result, row) {
            (Ok(receipt), Some(row)) => {
                &&& application_row_sound(row, members@)
                &&& receipt.application_id == application_id
                &&& receipt.proposals@.len() == members@.len()
                &&& forall|k: int|
                    0 <= k < members@.len() ==> {
                        &&& (#[trigger] receipt.proposals@[k]).proposal_id
                            == members@[k].proposal_id
                        &&& receipt.proposals@[k].applied_revision == members@[k].proposal_revision
                            + 1
                    }
                &&& receipt.application_revision == row.revision
                &&& row.status@ == crate::review::errors::application_status_text(receipt.status)
                &&& receipt.command_ids == command_ids
                &&& receipt.affected_item_ids == affected_item_ids
                &&& receipt.applied_at == row.applied_at
                &&& receipt.undo_expires_at == row.undo_expires_at
                &&& receipt.undone_at == row.undone_at
            },
            (Err(error), Some(row)) => !application_row_sound(row, members@) && error@
                == crate::review::errors::Refusal::Internal,
            (Err(error), None) => error@ == crate::review::errors::Refusal::NotFound,
            (Ok(_), None) => false,
        },
{
    let row: ApplicationRow = match row {
        Some(row) => row,
        None => {
            return Err(ProposalApplicationError::NotFound);
        },
    };
    let status: ProposalApplicationStatus = parse_application_status(row.status.as_str())?;
    let revision: u64 = revision_u64(row.revision as i64)?;
    let mut proposals: Vec<ProposalAppliedMember> = Vec::new();
    let mut i: usize = 0;
    while i < members.len()
        invariant
            i <= members.len(),
            proposals@.len() == i,
            forall|k: int|
                0 <= k < i ==> {
                    &&& (#[trigger] proposals@[k]).proposal_id == members@[k].proposal_id
                    &&& proposals@[k].applied_revision == members@[k].proposal_revision + 1
                },
            forall|k: int|
                0 <= k < i ==> (#[trigger] members@[k]).proposal_revision >= 0,
        decreases members.len() - i,
    {
        let base: u64 = match revision_u64(members[i].proposal_revision) {
            Ok(base) => base,
            Err(error) => {
                assert(members@[i as int].proposal_revision < 0);
                return Err(error);
            },
        };
        proposals.push(
            ProposalAppliedMember {
                proposal_id: members[i].proposal_id,
                applied_revision: base + 1,
            },
        );
        i = i + 1;
    }
    assert(row.status@ == crate::review::errors::application_status_text(status));
    Ok(
        ProposalApplicationReceipt {
            application_id,
            proposals,
            application_revision: revision,
            status,
            command_ids,
            affected_item_ids,
            applied_at: row.applied_at,
            undo_expires_at: row.undo_expires_at,
            undone_at: row.undone_at,
        },
    )
}

/// An application as far as undoing it depends on it.
#[derive(Clone, Copy, Debug, PartialEq, Eq, Structural)]
pub struct StoredApplication {
    pub revision: u64,
    pub status: ProposalApplicationStatus,
    pub effect_count: usize,
    pub fence_count: usize,
    pub undo_expires_at: Instant,
}

/// The columns of an application that is to be undone.
#[derive(Clone, Debug)]
pub struct LockedApplicationRow {
    pub status: String,
    pub revision: i16,
    pub effect_count: i16,
    pub fence_count: i32,
    pub undo_expires_at: Instant,
}

/// Whether the columns hold an application that has commands and changed items.
pub open spec fn locked_row_sound(row: LockedApplicationRow) -> bool {
    &&& exists|status: ProposalApplicationStatus|
        row.status@ == #[trigger] crate::review::errors::application_status_text(status)
    &&& row.revision >= 0
    &&& row.effect_count > 0
    &&& row.fence_count > 0
}

/// Whether the columns are those of an application.
pub open spec fn locked_row_holds(row: LockedApplicationRow, application: StoredApplication) -> bool {
    &&& application.revision == row.revision
    &&& row.status@ == crate::review::errors::application_status_text(application.status)
    &&& application.effect_count == row.effect_count
    &&& application.fence_count == row.fence_count
    &&& application.undo_expires_at == row.undo_expires_at
}

/// Reads an application that is to be undone.
pub fn stored_application(row: Option<LockedApplicationRow>) -> (result: Result<
    StoredApplication,
    ProposalApplicationError,
>)
    ensures
        match (result, row) {
            (Ok(application), Some(row)) => locked_row_sound(row) && locked_row_holds(
                row,
                application,
            ),
            (Err(error), Some(row)) => !locked_row_sound(row) && error@
                == crate::review::errors::Refusal::Internal,
            (Err(error), None) => error@ == crate::review::errors::Refusal::NotFound,
            (Ok(_), None) => false,
        },
{
    match row {
        None => Err(ProposalApplicationError::NotFound),
        Some(row) => {
            let revision: u64 = revision_u64(row.revision as i64)?;
            let status: ProposalApplicationStatus = parse_application_status(row.status.as_str())?;
            let effect_count: usize = positive_usize(row.effect_count as i32)?;
            let fence_count: usize = positive_usize(row.fence_count)?;
            assert(row.status@ == crate::review::errors::application_status_text(status));
            Ok(
                StoredApplication {
                    revision,
                    status,
                    effect_count,
                    fence_count,
                    undo_expires_at: row.undo_expires_at,
                },
            )
        },
    }
}

} // verus!
