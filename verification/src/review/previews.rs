//! Reviews: what is shown of a change set, how it is bound, and how it is stored.
use vstd::prelude::*;

use crate::hashing::{encoded_hash, hash_bytes, same_hash};
use crate::items::commands::TransactionalItemEffect;
use crate::proposals::application::{
    ProposalChangeSetPreview, ProposalChangeSetSchema, ProposalCommand, ProposalConflict,
    ProposalConflictCode, ProposalImplicitItemDiff, ProposalItemDiff, ProposalPreviewMember,
    ProposalRisk, ProposalRiskLevel,
};
use crate::proposals::domain::Proposal;
use crate::review::conflicts::sorted_conflicts;
use crate::review::diffs::item_diff;
use crate::review::errors::{
    bytes32, positive_usize, revision_i64, revision_u64, validation, ProposalApplicationError,
};
use crate::review::hashes::{calculate_preview_hash, review_content_hash, StoredPreviewMember};
use crate::review::risks::{maximum_risk, proposal_risks, requires_explicit_approval};
use crate::time::{DatabaseScope, Instant, Uuid};

verus! {

/// How long a review can be applied: fifteen minutes, in nanoseconds.
pub const PREVIEW_TTL: i128 = 900_000_000_000;

/// Reviews are made within this distance from the Unix epoch: it is beyond every date
/// that the service can represent, and its microseconds fit eight bytes.
pub const REVIEW_TIME_LIMIT: i128 = 9_000_000_000_000_000_000_000;

/// Whether reviews can be made at an instant.
pub open spec fn review_time(now: Instant) -> bool {
    -REVIEW_TIME_LIMIT <= now <= REVIEW_TIME_LIMIT
}

/// The earliest instant at which one of the first `count` proposals expires.
pub open spec fn earliest_expiry(proposals: Seq<Proposal>, count: int) -> Instant
    decreases count,
{
    if count <= 1 {
        proposals[0].expires_at
    } else {
        let earlier = earliest_expiry(proposals, count - 1);
        if proposals[count - 1].expires_at < earlier {
            proposals[count - 1].expires_at
        } else {
            earlier
        }
    }
}

/// When a review expires: when its time is up, or when one of its proposals expires.
pub open spec fn review_expiry(proposals: Seq<Proposal>, now: Instant) -> int {
    let expiry = earliest_expiry(proposals, proposals.len() as int);
    if now + PREVIEW_TTL < expiry {
        now + PREVIEW_TTL
    } else {
        expiry as int
    }
}

/// When a review of these proposals expires.
pub fn preview_expiry(proposals: &Vec<Proposal>, now: Instant) -> (result: Result<
    Instant,
    ProposalApplicationError,
>)
    requires
        review_time(now),
    ensures
        match result {
            Ok(expires_at) => proposals@.len() > 0 && expires_at == review_expiry(proposals@, now)
                && expires_at > now,
            Err(error) => if proposals@.len() == 0 {
                error@ == crate::review::errors::Refusal::Validation(
                    "at least one proposal is required"@,
                )
            } else {
                review_expiry(proposals@, now) <= now && error@
                    == crate::review::errors::Refusal::Stale(ProposalConflictCode::ProposalExpired)
            },
        },
{
    if proposals.len() == 0 {
        return Err(validation("at least one proposal is required"));
    }
    let mut expiry: Instant = proposals[0].expires_at;
    let mut i: usize = 1;
    while i < proposals.len()
        invariant
            1 <= i <= proposals.len(),
            expiry == earliest_expiry(proposals@, i as int),
        decreases proposals.len() - i,
    {
        if proposals[i].expires_at < expiry {
            expiry = proposals[i].expires_at;
        }
        i = i + 1;
    }
    let lapse: Instant = now + PREVIEW_TTL;
    let expires_at: Instant = if lapse < expiry {
        lapse
    } else {
        expiry
    };
    if expires_at <= now {
        return Err(ProposalApplicationError::Stale(ProposalConflictCode::ProposalExpired));
    }
    Ok(expires_at)
}

/// What the owner is shown of a change set.
#[derive(Debug)]
pub struct ReviewContent {
    pub command_ids: Vec<Uuid>,
    pub can_apply: bool,
    pub maximum_risk: ProposalRiskLevel,
    pub requires_explicit_approval: bool,
    pub diffs: Vec<ProposalItemDiff>,
    pub implicit_diffs: Vec<ProposalImplicitItemDiff>,
    pub risks: Vec<ProposalRisk>,
    pub conflicts: Vec<ProposalConflict>,
}

/// Whether a diff tells what a command did.
pub open spec fn diff_of(
    diff: ProposalItemDiff,
    command: ProposalCommand,
    effect: TransactionalItemEffect,
) -> bool {
    &&& diff.command_id == command.spec_command_id()
    &&& diff.operation == command.spec_operation()
    &&& diff.item_id == command.spec_target()
    &&& diff.changed_fields@ == crate::review::diffs::changed_field_list(
        effect.before,
        Some(effect.after),
    )
    &&& match (effect.before, diff.before) {
        (Some(a), Some(b)) => crate::items::model::item_same(a, b),
        (None, None) => true,
        _ => false,
    }
    &&& diff.after matches Some(after) && crate::items::model::item_same(effect.after, after)
}

/// Whether a risk level is the highest of the risks.
pub open spec fn highest_level(level: ProposalRiskLevel, risks: Seq<ProposalRisk>) -> bool {
    &&& risks.len() == 0 ==> level == ProposalRiskLevel::Low
    &&& forall|k: int| 0 <= k < risks.len() ==> (#[trigger] risks[k]).level.rank() <= level.rank()
    &&& risks.len() > 0 ==> exists|k: int|
        0 <= k < risks.len() && (#[trigger] risks[k]).level == level
}

/// Whether `content` is what is to be shown: every command with what it did, the items
/// that change besides, all risks, and all conflicts in order. It can be applied
/// exactly if there is no conflict.
pub open spec fn content_fits(
    content: ReviewContent,
    commands: Seq<ProposalCommand>,
    effects: Seq<TransactionalItemEffect>,
    implicit_diffs: Vec<ProposalImplicitItemDiff>,
    conflicts: Seq<ProposalConflict>,
) -> bool {
    &&& content.command_ids@ == commands.map_values(
        |command: ProposalCommand| command.spec_command_id(),
    )
    &&& content.can_apply == (conflicts.len() == 0)
    &&& crate::review::risks::risk_views(content.risks@) == crate::review::risks::change_set_risks(
        commands,
        effects,
    )
    &&& highest_level(content.maximum_risk, content.risks@)
    &&& content.requires_explicit_approval == exists|k: int|
        0 <= k < content.risks@.len() && (#[trigger] content.risks@[k]).requires_explicit_approval
    &&& content.diffs@.len() == if commands.len() <= effects.len() {
        commands.len()
    } else {
        effects.len()
    }
    &&& forall|k: int|
        0 <= k < content.diffs@.len() ==> diff_of(
            #[trigger] content.diffs@[k],
            commands[k],
            effects[k],
        )
    &&& content.implicit_diffs == implicit_diffs
    &&& crate::review::conflicts::in_conflict_order(content.conflicts@)
    &&& forall|key: (Option<Uuid>, Option<Uuid>)| #[trigger]
        crate::review::conflicts::conflicts_with_key(content.conflicts@, key)
            == crate::review::conflicts::conflicts_with_key(conflicts, key)
    &&& content.conflicts@.len() == conflicts.len()
}

fn ids_of_commands(commands: &Vec<ProposalCommand>) -> (result: Vec<Uuid>)
    ensures
        result@ == commands@.map_values(|command: ProposalCommand| command.spec_command_id()),
{
    let mut ids: Vec<Uuid> = Vec::new();
    let mut i: usize = 0;
    while i < commands.len()
        invariant
            i <= commands.len(),
            ids@.len() == i,
            forall|k: int| 0 <= k < i ==> ids@[k] == (#[trigger] commands@[k]).spec_command_id(),
        decreases commands.len() - i,
    {
        ids.push(commands[i].command_id());
        i = i + 1;
    }
    assert(ids@ =~= commands@.map_values(|command: ProposalCommand| command.spec_command_id()));
    ids
}

/// What the owner is shown of a change set, given what a trial of it did to the items
/// and which conflicts it showed.
pub fn review_content(
    commands: &Vec<ProposalCommand>,
    effects: &Vec<TransactionalItemEffect>,
    implicit_diffs: Vec<ProposalImplicitItemDiff>,
    conflicts: Vec<ProposalConflict>,
) -> (result: ReviewContent)
    ensures
        content_fits(result, commands@, effects@, implicit_diffs, conflicts@),
{
    let shared: usize = if commands.len() <= effects.len() {
        commands.len()
    } else {
        effects.len()
    };
    let mut diffs: Vec<ProposalItemDiff> = Vec::new();
    let mut i: usize = 0;
    while i < shared
        invariant
            i <= shared,
            shared <= commands@.len(),
            shared <= effects@.len(),
            diffs@.len() == i,
            forall|k: int|
                0 <= k < i ==> diff_of(#[trigger] diffs@[k], commands@[k], effects@[k]),
        decreases shared - i,
    {
        diffs.push(item_diff(&commands[i], &effects[i]));
        i = i + 1;
    }
    let risks: Vec<ProposalRisk> = proposal_risks(commands, effects);
    let level: ProposalRiskLevel = maximum_risk(&risks);
    let approval: bool = requires_explicit_approval(&risks);
    let can_apply: bool = conflicts.len() == 0;
    let sorted: Vec<ProposalConflict> = sorted_conflicts(conflicts);
    ReviewContent {
        command_ids: ids_of_commands(commands),
        can_apply,
        maximum_risk: level,
        requires_explicit_approval: approval,
        diffs,
        implicit_diffs,
        risks,
        conflicts: sorted,
    }
}

/// A review as it is stored: no content, only what binds it.
#[derive(Clone, Copy, Debug)]
pub struct StoredPreview {
    pub id: Uuid,
    pub proposal_count: usize,
    pub command_count: usize,
    pub commands_hash: [u8; 32],
    pub canonical_hash: [u8; 32],
    pub review_content_hash: [u8; 32],
    pub preview_hash: [u8; 32],
    pub can_apply: bool,
    pub created_at: Instant,
    pub expires_at: Instant,
}

/// What of a stored review goes into its digest.
pub open spec fn seal_of(preview: StoredPreview, scope: DatabaseScope) -> crate::review::hashes::PreviewSeal {
    crate::review::hashes::PreviewSeal {
        preview_id: preview.id,
        scope,
        command_count: preview.command_count as u64,
        commands_hash: preview.commands_hash@,
        canonical_hash: preview.canonical_hash@,
        review_content_hash: preview.review_content_hash@,
        can_apply: preview.can_apply,
        created_at: preview.created_at,
        expires_at: preview.expires_at,
    }
}

/// The digest that a stored review must have.
pub open spec fn sealed_hash(
    preview: StoredPreview,
    scope: DatabaseScope,
    members: Seq<StoredPreviewMember>,
) -> Seq<u8> {
    crate::outside::sha256_of(
        crate::review::hashes::preview_bytes(seal_of(preview, scope), members),
    )
}

/// The digest of no document: thirty-two zero bytes.
pub open spec fn zero_hash(hash: Seq<u8>) -> bool {
    hash == Seq::new(32, |k: int| 0u8)
}

/// Whether the payload of a proposal could be written down and digested.
pub open spec fn payload_digested(document: Option<Vec<u8>>) -> bool {
    match document {
        Some(bytes) => !zero_hash(crate::outside::sha256_of(bytes@)),
        None => false,
    }
}

/// Whether `members` are the proposals with the digests of their payloads.
pub open spec fn members_fit(
    members: Seq<StoredPreviewMember>,
    proposals: Seq<Proposal>,
    documents: Seq<Option<Vec<u8>>>,
) -> bool {
    &&& members.len() == proposals.len()
    &&& forall|k: int|
        0 <= k < members.len() ==> {
            &&& (#[trigger] members[k]).proposal_id == proposals[k].id
            &&& members[k].proposal_revision == proposals[k].revision
            &&& payload_digested(documents[k])
            &&& members[k].payload_hash@ == crate::outside::sha256_of(documents[k]->0@)
        }
}

fn is_zero_hash(hash: &[u8; 32]) -> (result: bool)
    ensures
        result == zero_hash(hash@),
{
    let zero: [u8; 32] = [0u8;32];
    let same: bool = same_hash(hash, &zero);
    assert(zero@ =~= Seq::new(32, |k: int| 0u8));
    same
}

/// The proposals of a review with the digests of their payloads. `documents` are the
/// payloads as they are written down.
pub fn preview_members(proposals: &Vec<Proposal>, documents: &Vec<Option<Vec<u8>>>) -> (result:
    Result<Vec<StoredPreviewMember>, ProposalApplicationError>)
    requires
        documents@.len() == proposals@.len(),
    ensures
        match result {
            Ok(members) => members_fit(members@, proposals@, documents@),
            Err(error) => error@ == crate::review::errors::Refusal::Internal && exists|k: int|
                0 <= k < documents@.len() && !payload_digested(#[trigger] documents@[k]),
        },
{
    let mut members: Vec<StoredPreviewMember> = Vec::new();
    let mut i: usize = 0;
    while i < proposals.len()
        invariant
            i <= proposals@.len(),
            documents@.len() == proposals@.len(),
            members@.len() == i,
            forall|k: int|
                0 <= k < i ==> {
                    &&& (#[trigger] members@[k]).proposal_id == proposals@[k].id
                    &&& members@[k].proposal_revision == proposals@[k].revision
                    &&& payload_digested(documents@[k])
                    &&& members@[k].payload_hash@ == crate::outside::sha256_of(documents@[k]->0@)
                },
        decreases proposals.len() - i,
    {
        let payload_hash: [u8; 32] = match &documents[i] {
            Some(document) => hash_bytes(document),
            None => {
                assert(!payload_digested(documents@[i as int]));
                return Err(ProposalApplicationError::Internal);
            },
        };
        if is_zero_hash(&payload_hash) {
            assert(!payload_digested(documents@[i as int]));
            return Err(ProposalApplicationError::Internal);
        }
        members.push(
            StoredPreviewMember {
                proposal_id: proposals[i].id,
                proposal_revision: proposals[i].revision,
                payload_hash,
            },
        );
        i = i + 1;
    }
    Ok(members)
}

/// Binds a review: the digest over everything that an approval of it stands for.
///
/// `commands_document` are the commands and `content_document` what is shown, as they
/// are written down. `canonical_hash` is the digest of the items that the review was
/// made against.
pub fn seal_preview(
    preview_id: Uuid,
    scope: DatabaseScope,
    members: &Vec<StoredPreviewMember>,
    command_count: usize,
    commands_document: &Vec<u8>,
    canonical_hash: [u8; 32],
    content_document: &Vec<u8>,
    can_apply: bool,
    now: Instant,
    expires_at: Instant,
) -> (result: StoredPreview)
    requires
        review_time(now),
        now < expires_at <= now + PREVIEW_TTL,
    ensures
        result.id == preview_id,
        result.proposal_count == members@.len(),
        result.command_count == command_count,
        result.commands_hash@ == crate::outside::sha256_of(commands_document@),
        result.canonical_hash@ == canonical_hash@,
        result.review_content_hash@ == crate::outside::sha256_of(
            vstd::utf8::encode_utf8("dayweave.proposal.review-content.v1\0"@) + content_document@,
        ),
        result.can_apply == can_apply,
        result.created_at == now,
        result.expires_at == expires_at,
        result.preview_hash@ == sealed_hash(result, scope, members@),
{
    let commands_hash: [u8; 32] = hash_bytes(commands_document);
    let content_hash: [u8; 32] = review_content_hash(content_document);
    let preview_hash: [u8; 32] = calculate_preview_hash(
        preview_id,
        scope,
        members,
        command_count,
        &commands_hash,
        &canonical_hash,
        &content_hash,
        can_apply,
        now,
        expires_at,
    );
    StoredPreview {
        id: preview_id,
        proposal_count: members.len(),
        command_count,
        commands_hash,
        canonical_hash,
        review_content_hash: content_hash,
        preview_hash,
        can_apply,
        created_at: now,
        expires_at,
    }
}

/// The answer to a request for a review.
pub fn preview_answer(
    preview: &StoredPreview,
    proposals: Vec<ProposalPreviewMember>,
    content: ReviewContent,
) -> (result: ProposalChangeSetPreview)
    ensures
        result.preview_id == preview.id,
        result.proposals == proposals,
        result.change_set_schema == ProposalChangeSetSchema::V1,
        result.command_ids == content.command_ids,
        result.review_hash@ == crate::hashing::prefixed_text(preview.preview_hash@),
        result.expires_at == preview.expires_at,
        result.can_apply == content.can_apply,
        result.maximum_risk == content.maximum_risk,
        result.requires_explicit_approval == content.requires_explicit_approval,
        result.diffs == content.diffs,
        result.implicit_diffs == content.implicit_diffs,
        result.risks == content.risks,
        result.conflicts == content.conflicts,
{
    ProposalChangeSetPreview {
        preview_id: preview.id,
        proposals,
        change_set_schema: ProposalChangeSetSchema::V1,
        command_ids: content.command_ids,
        review_hash: encoded_hash(preview.preview_hash),
        expires_at: preview.expires_at,
        can_apply: content.can_apply,
        maximum_risk: content.maximum_risk,
        requires_explicit_approval: content.requires_explicit_approval,
        diffs: content.diffs,
        implicit_diffs: content.implicit_diffs,
        risks: content.risks,
        conflicts: content.conflicts,
    }
}

/// The columns of a stored review.
#[derive(Debug)]
pub struct PreviewRow {
    pub id: Uuid,
    pub proposal_count: i16,
    pub command_count: i16,
    pub commands_hash: Vec<u8>,
    pub canonical_hash: Vec<u8>,
    pub review_content_hash: Vec<u8>,
    pub preview_hash: Vec<u8>,
    pub can_apply: bool,
    pub created_at: Instant,
    pub expires_at: Instant,
}

/// Whether the columns hold a review: counts that are not zero, and digests.
pub open spec fn preview_row_sound(row: PreviewRow) -> bool {
    &&& row.proposal_count > 0
    &&& row.command_count > 0
    &&& row.commands_hash@.len() == 32
    &&& row.canonical_hash@.len() == 32
    &&& row.review_content_hash@.len() == 32
    &&& row.preview_hash@.len() == 32
}

/// Reads a stored review.
pub fn stored_preview(row: Option<PreviewRow>) -> (result: Result<
    StoredPreview,
    ProposalApplicationError,
>)
    ensures
        match (result, row) {
            (Ok(preview), Some(row)) => {
                &&& preview_row_sound(row)
                &&& preview.id == row.id
                &&& preview.proposal_count == row.proposal_count
                &&& preview.command_count == row.command_count
                &&& preview.commands_hash@ == row.commands_hash@
                &&& preview.canonical_hash@ == row.canonical_hash@
                &&& preview.review_content_hash@ == row.review_content_hash@
                &&& preview.preview_hash@ == row.preview_hash@
                &&& preview.can_apply == row.can_apply
                &&& preview.created_at == row.created_at
                &&& preview.expires_at == row.expires_at
            },
            (Err(error), Some(row)) => !preview_row_sound(row) && error@
                == crate::review::errors::Refusal::Internal,
            (Err(error), None) => error@ == crate::review::errors::Refusal::NotFound,
            (Ok(_), None) => false,
        },
{
    match row {
        None => Err(ProposalApplicationError::NotFound),
        Some(row) => {
            let proposal_count: usize = positive_usize(row.proposal_count as i32)?;
            let command_count: usize = positive_usize(row.command_count as i32)?;
            let commands_hash: [u8; 32] = bytes32(row.commands_hash)?;
            let canonical_hash: [u8; 32] = bytes32(row.canonical_hash)?;
            let review_content_hash: [u8; 32] = bytes32(row.review_content_hash)?;
            let preview_hash: [u8; 32] = bytes32(row.preview_hash)?;
            Ok(
                StoredPreview {
                    id: row.id,
                    proposal_count,
                    command_count,
                    commands_hash,
                    canonical_hash,
                    review_content_hash,
                    preview_hash,
                    can_apply: row.can_apply,
                    created_at: row.created_at,
                    expires_at: row.expires_at,
                },
            )
        },
    }
}

/// The columns of a stored member of a review.
#[derive(Debug)]
pub struct PreviewMemberRow {
    pub proposal_id: Uuid,
    pub proposal_revision: i64,
    pub payload_hash: Vec<u8>,
}

fn digest_column(digest: &[u8; 32]) -> (result: Vec<u8>)
    ensures
        result@ == digest@,
{
    let mut bytes: Vec<u8> = Vec::new();
    let mut k: usize = 0;
    while k < 32
        invariant
            k <= 32,
            bytes@ == digest@.take(k as int),
        decreases 32 - k,
    {
        bytes.push(digest[k]);
        k = k + 1;
        assert(bytes@ =~= digest@.take(k as int));
    }
    assert(digest@.take(32) =~= digest@);
    bytes
}

/// A count as it is stored.
fn count_column(count: usize) -> (result: Result<i16, ProposalApplicationError>)
    ensures
        match result {
            Ok(stored) => stored == count,
            Err(error) => count > i16::MAX && error@ == crate::review::errors::Refusal::Internal,
        },
{
    if count > 32_767 {
        Err(ProposalApplicationError::Internal)
    } else {
        Ok(count as i16)
    }
}

/// Whether the columns are those of a review.
pub open spec fn preview_row_fits(preview: StoredPreview, row: PreviewRow) -> bool {
    &&& row.id == preview.id
    &&& row.proposal_count == preview.proposal_count
    &&& row.command_count == preview.command_count
    &&& row.commands_hash@ == preview.commands_hash@
    &&& row.canonical_hash@ == preview.canonical_hash@
    &&& row.review_content_hash@ == preview.review_content_hash@
    &&& row.preview_hash@ == preview.preview_hash@
    &&& row.can_apply == preview.can_apply
    &&& row.created_at == preview.created_at
    &&& row.expires_at == preview.expires_at
}

/// The columns of a review.
pub fn preview_row(preview: &StoredPreview) -> (result: Result<
    PreviewRow,
    ProposalApplicationError,
>)
    ensures
        match result {
            Ok(row) => preview_row_fits(*preview, row),
            Err(error) => error@ == crate::review::errors::Refusal::Internal && (
            preview.proposal_count > i16::MAX || preview.command_count > i16::MAX),
        },
{
    let proposal_count: i16 = count_column(preview.proposal_count)?;
    let command_count: i16 = count_column(preview.command_count)?;
    Ok(
        PreviewRow {
            id: preview.id,
            proposal_count,
            command_count,
            commands_hash: digest_column(&preview.commands_hash),
            canonical_hash: digest_column(&preview.canonical_hash),
            review_content_hash: digest_column(&preview.review_content_hash),
            preview_hash: digest_column(&preview.preview_hash),
            can_apply: preview.can_apply,
            created_at: preview.created_at,
            expires_at: preview.expires_at,
        },
    )
}

/// Whether the columns are those of a member of a review.
pub open spec fn preview_member_row_fits(
    member: StoredPreviewMember,
    row: PreviewMemberRow,
) -> bool {
    &&& row.proposal_id == member.proposal_id
    &&& row.proposal_revision == member.proposal_revision
    &&& row.payload_hash@ == member.payload_hash@
}

/// The columns of the members of a review. The place of a member is stored in sixteen
/// bits.
pub fn preview_member_rows(members: &Vec<StoredPreviewMember>) -> (result: Result<
    Vec<PreviewMemberRow>,
    ProposalApplicationError,
>)
    ensures
        match result {
            Ok(rows) => {
                &&& members@.len() <= 32_768
                &&& rows@.len() == members@.len()
                &&& forall|k: int|
                    0 <= k < members@.len() ==> preview_member_row_fits(
                        members@[k],
                        #[trigger] rows@[k],
                    )
            },
            Err(error) => {
                &&& error@ == crate::review::errors::Refusal::Internal
                &&& {
                    ||| members@.len() > 32_768
                    ||| exists|k: int|
                        0 <= k < members@.len() && (#[trigger] members@[k]).proposal_revision
                            > i64::MAX
                }
            },
        },
{
    let mut rows: Vec<PreviewMemberRow> = Vec::new();
    let mut ordinal: usize = 0;
    while ordinal < members.len()
        invariant
            ordinal <= members.len(),
            ordinal <= 32_768,
            rows@.len() == ordinal,
            forall|k: int|
                0 <= k < ordinal ==> preview_member_row_fits(members@[k], #[trigger] rows@[k]),
        decreases members.len() - ordinal,
    {
        count_column(ordinal)?;
        let proposal_revision: i64 = match revision_i64(members[ordinal].proposal_revision) {
            Ok(revision) => revision,
            Err(error) => {
                assert(members@[ordinal as int].proposal_revision > i64::MAX);
                return Err(error);
            },
        };
        rows.push(
            PreviewMemberRow {
                proposal_id: members[ordinal].proposal_id,
                proposal_revision,
                payload_hash: digest_column(&members[ordinal].payload_hash),
            },
        );
        ordinal = ordinal + 1;
    }
    Ok(rows)
}

/// Reads a stored member of a review.
pub fn stored_preview_member(row: PreviewMemberRow) -> (result: Result<
    StoredPreviewMember,
    ProposalApplicationError,
>)
    ensures
        match result {
            Ok(member) => {
                &&& member.proposal_id == row.proposal_id
                &&& member.proposal_revision == row.proposal_revision
                &&& member.payload_hash@ == row.payload_hash@
            },
            Err(error) => error@ == crate::review::errors::Refusal::Internal && (
            row.proposal_revision < 0 || row.payload_hash@.len() != 32),
        },
{
    let proposal_revision: u64 = revision_u64(row.proposal_revision)?;
    let payload_hash: [u8; 32] = bytes32(row.payload_hash)?;
    Ok(StoredPreviewMember { proposal_id: row.proposal_id, proposal_revision, payload_hash })
}

/// Whether two members name the same revision of the same proposal with the same payload.
pub open spec fn same_member(a: StoredPreviewMember, b: StoredPreviewMember) -> bool {
    &&& a.proposal_id == b.proposal_id
    &&& a.proposal_revision == b.proposal_revision
    &&& a.payload_hash@ == b.payload_hash@
}

proof fn lemma_same_members(a: Seq<StoredPreviewMember>, b: Seq<StoredPreviewMember>)
    requires
        a.len() == b.len(),
        forall|k: int| 0 <= k < a.len() ==> same_member(#[trigger] a[k], b[k]),
    ensures
        crate::review::hashes::members_bytes(a) == crate::review::hashes::members_bytes(b),
    decreases a.len(),
{
    if a.len() > 0 {
        assert forall|k: int| 0 <= k < a.drop_last().len() implies same_member(
            #[trigger] a.drop_last()[k],
            b.drop_last()[k],
        ) by {
            assert(same_member(a[k], b[k]));
        }
        lemma_same_members(a.drop_last(), b.drop_last());
        assert(same_member(a[a.len() - 1], b[b.len() - 1]));
    }
}

/// A review that was bound and stored is whole when it is read back, though the database
/// keeps its life time to the microsecond only: it has the digest of its parts, the
/// commands that it was made for and as many proposals.
pub proof fn stored_review_is_whole(
    sealed: StoredPreview,
    members: Seq<StoredPreviewMember>,
    scope: DatabaseScope,
    commands_document: Seq<u8>,
    read: StoredPreview,
    read_members: Seq<StoredPreviewMember>,
)
    requires
        sealed.proposal_count == members.len(),
        sealed.commands_hash@ == crate::outside::sha256_of(commands_document),
        sealed.preview_hash@ == sealed_hash(sealed, scope, members),
        read.id == sealed.id,
        read.proposal_count == sealed.proposal_count,
        read.command_count == sealed.command_count,
        read.commands_hash@ == sealed.commands_hash@,
        read.canonical_hash@ == sealed.canonical_hash@,
        read.review_content_hash@ == sealed.review_content_hash@,
        read.preview_hash@ == sealed.preview_hash@,
        read.can_apply == sealed.can_apply,
        read.created_at == crate::time::stored_instant(sealed.created_at),
        read.expires_at == crate::time::stored_instant(sealed.expires_at),
        read_members.len() == members.len(),
        forall|k: int| 0 <= k < members.len() ==> same_member(#[trigger] members[k], read_members[k]),
    ensures
        crate::review::applications::preview_whole(
            read,
            scope,
            read_members,
            members.len(),
            sealed.command_count as nat,
            commands_document,
        ),
{
    lemma_same_members(members, read_members);
    crate::time::stored_instant_is_stable(sealed.created_at, read.created_at);
    crate::time::stored_instant_is_stable(sealed.expires_at, read.expires_at);
    assert(crate::review::hashes::instant_bytes(read.created_at)
        == crate::review::hashes::instant_bytes(sealed.created_at));
    assert(crate::review::hashes::instant_bytes(read.expires_at)
        == crate::review::hashes::instant_bytes(sealed.expires_at));
}

} // verus!
