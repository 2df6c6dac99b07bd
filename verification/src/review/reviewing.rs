//! What the owner is shown, and what is kept of what was approved.
use vstd::prelude::*;

use crate::items::commands::TransactionalItemEffect;
use crate::items::model::Item;
use crate::proposals::application::{
    ProposalCommand, ProposalConflict, ProposalImplicitItemDiff, ProposalOperation,
    ProposalRiskCode, ProposalRiskLevel, ReadItem,
};
use crate::proposals::domain::Proposal;
use crate::review::applications::{
    effect_row_fits, effect_storable, locked_row_holds, AppliedEffectRow, EffectDocuments,
    LockedApplicationRow, StoredApplication,
};
use crate::review::attention::known_effect;
use crate::review::decisions::{change_set_refused, change_set_stands};
use crate::review::hashes::{
    canonical_bytes, canonical_rows_bytes, ids_bytes, CanonicalItemRow, StoredPreviewMember,
};
use crate::review::previews::{
    content_fits, highest_level, members_fit, preview_row_fits, PreviewRow, ReviewContent,
    StoredPreview,
};
use crate::review::undoing::{effect_row_sound, fence_closes, StoredEffectRow, StoredFence};
use crate::time::{Instant, Uuid};

verus! {

proof fn lemma_pushed<A>(values: Seq<A>, last: A, value: A)
    ensures
        values.push(last).contains(value) == (values.contains(value) || value == last),
{
    let more = values.push(last);
    assert(more[values.len() as int] == last);
    if values.contains(value) {
        let k = choose|k: int| 0 <= k < values.len() && values[k] == value;
        assert(more[k] == value);
    }
    if more.contains(value) {
        let k = choose|k: int| 0 <= k < more.len() && more[k] == value;
        if k < values.len() {
            assert(values[k] == value);
        }
    }
}

proof fn lemma_with_key(
    conflicts: Seq<ProposalConflict>,
    key: (Option<Uuid>, Option<Uuid>),
    conflict: ProposalConflict,
)
    ensures
        crate::review::conflicts::conflicts_with_key(conflicts, key).contains(conflict) == (
        conflicts.contains(conflict) && crate::review::conflicts::conflict_key(conflict) == key),
    decreases conflicts.len(),
{
    reveal(Seq::filter);
    let keep = |candidate: ProposalConflict|
        crate::review::conflicts::conflict_key(candidate) == key;
    if conflicts.len() > 0 {
        let first = conflicts.drop_last();
        let last = conflicts.last();
        lemma_with_key(first, key, conflict);
        let some = crate::review::conflicts::conflicts_with_key(first, key);
        assert(crate::review::conflicts::conflicts_with_key(conflicts, key) == if keep(last) {
            some.push(last)
        } else {
            some
        });
        assert(conflicts =~= first.push(last));
        lemma_pushed(first, last, conflict);
        lemma_pushed(some, last, conflict);
    }
}

/// A review shows every conflict and no other, and can be applied exactly if there is none.
pub proof fn reviews_show_every_conflict(
    content: ReviewContent,
    commands: Seq<ProposalCommand>,
    effects: Seq<TransactionalItemEffect>,
    implicit_diffs: Vec<ProposalImplicitItemDiff>,
    conflicts: Seq<ProposalConflict>,
    conflict: ProposalConflict,
)
    requires
        content_fits(content, commands, effects, implicit_diffs, conflicts),
    ensures
        content.can_apply <==> conflicts.len() == 0,
        content.conflicts@.len() == conflicts.len(),
        content.conflicts@.contains(conflict) <==> conflicts.contains(conflict),
        content.implicit_diffs == implicit_diffs,
{
    let key = crate::review::conflicts::conflict_key(conflict);
    lemma_with_key(conflicts, key, conflict);
    lemma_with_key(content.conflicts@, key, conflict);
    assert(crate::review::conflicts::conflicts_with_key(content.conflicts@, key)
        == crate::review::conflicts::conflicts_with_key(conflicts, key));
}

/// A review asks for the owner's approval exactly if there is something to approve: more than
/// one command, a command that is no creation, or any reason for another risk than that an
/// item is created.
pub proof fn reviews_ask_for_approval(
    content: ReviewContent,
    commands: Seq<ProposalCommand>,
    effects: Seq<TransactionalItemEffect>,
    implicit_diffs: Vec<ProposalImplicitItemDiff>,
    conflicts: Seq<ProposalConflict>,
    k: int,
    code: ProposalRiskCode,
)
    requires
        content_fits(content, commands, effects, implicit_diffs, conflicts),
        0 <= k < commands.len(),
    ensures
        commands.len() > 1 ==> content.requires_explicit_approval,
        !(commands[k] is CreateItem) ==> content.requires_explicit_approval,
        code != ProposalRiskCode::CreatesItem && crate::review::attention::reason_for(
            code,
            commands[k],
            known_effect(effects, k),
        ) ==> content.requires_explicit_approval,
        commands.len() == 1 && (forall|other: ProposalRiskCode|
            other != ProposalRiskCode::CreatesItem
                ==> !#[trigger] crate::review::attention::reason_for(
                other,
                commands[0],
                known_effect(effects, 0),
            )) ==> !content.requires_explicit_approval,
{
    let risks = crate::review::risks::change_set_risks(commands, effects);
    assert(crate::review::risks::risk_views(content.risks@) == risks);
    assert(content.risks@.len() == risks.len());
    assert forall|i: int| 0 <= i < risks.len() implies (#[trigger] risks[i])
        == content.risks@[i]@ by {
        assert(crate::review::risks::risk_views(content.risks@)[i] == content.risks@[i]@);
    }
    if commands.len() > 1 {
        crate::review::attention::bulk_is_told(commands, effects);
        let i = choose|i: int|
            0 <= i < risks.len() && (#[trigger] risks[i]).code == ProposalRiskCode::BulkChange;
        crate::review::attention::told_risks_have_reasons(commands, effects, i);
        assert(content.risks@[i].requires_explicit_approval);
    }
    if !(commands[k] is CreateItem) {
        let effect = known_effect(effects, k);
        let own = if crate::review::attention::touches_sensitive(effect) {
            ProposalRiskCode::SensitiveContent
        } else {
            match commands[k] {
                ProposalCommand::ReplaceItem { .. } => ProposalRiskCode::ReplacesItem,
                ProposalCommand::TrashItem { .. } => ProposalRiskCode::TrashesItem,
                _ => ProposalRiskCode::RestoresItem,
            }
        };
        crate::review::attention::reasons_are_told(commands, effects, k, own);
        let i = choose|i: int|
            0 <= i < risks.len() && (#[trigger] risks[i]).code == own
                && crate::review::attention::tells_of(risks[i], commands[k]);
        assert(content.risks@[i].requires_explicit_approval);
    }
    if code != ProposalRiskCode::CreatesItem && crate::review::attention::reason_for(
        code,
        commands[k],
        known_effect(effects, k),
    ) {
        crate::review::attention::reasons_are_told(commands, effects, k, code);
        let i = choose|i: int|
            0 <= i < risks.len() && (#[trigger] risks[i]).code == code
                && crate::review::attention::tells_of(risks[i], commands[k]);
        assert(content.risks@[i].requires_explicit_approval);
    }
    if commands.len() == 1 && (forall|other: ProposalRiskCode|
        other != ProposalRiskCode::CreatesItem
            ==> !#[trigger] crate::review::attention::reason_for(
            other,
            commands[0],
            known_effect(effects, 0),
        )) {
        assert forall|i: int| 0 <= i < content.risks@.len() implies !(
        #[trigger] content.risks@[i]).requires_explicit_approval by {
            crate::review::attention::told_risks_have_reasons(commands, effects, i);
            assert(risks[i] == content.risks@[i]@);
            if risks[i].code != ProposalRiskCode::BulkChange {
                let j = choose|j: int|
                    0 <= j < commands.len() && crate::review::attention::reason_for(
                        risks[i].code,
                        #[trigger] commands[j],
                        known_effect(effects, j),
                    ) && crate::review::attention::tells_of(risks[i], commands[j]);
                assert(j == 0);
            }
        }
    }
}

/// The risk of a change set is as grave as the gravest of its risks.
pub proof fn gravest_risk_counts(
    level: ProposalRiskLevel,
    risks: Seq<crate::proposals::application::ProposalRisk>,
    k: int,
)
    requires
        highest_level(level, risks),
    ensures
        0 <= k < risks.len() ==> {
            &&& risks[k].level == ProposalRiskLevel::Critical ==> level
                == ProposalRiskLevel::Critical
            &&& risks[k].level == ProposalRiskLevel::High ==> level != ProposalRiskLevel::Low
                && level != ProposalRiskLevel::Medium
            &&& risks[k].level == ProposalRiskLevel::Medium ==> level != ProposalRiskLevel::Low
        },
        level != ProposalRiskLevel::Low ==> exists|j: int|
            0 <= j < risks.len() && (#[trigger] risks[j]).level == level,
{
    if 0 <= k < risks.len() {
        assert(risks[k].level.rank() <= level.rank());
    }
}

/// A review shows each command under its own identifier, with what it did to its item.
pub proof fn reviews_show_every_command(
    content: ReviewContent,
    commands: Seq<ProposalCommand>,
    effects: Seq<TransactionalItemEffect>,
    implicit_diffs: Vec<ProposalImplicitItemDiff>,
    conflicts: Seq<ProposalConflict>,
    k: int,
)
    requires
        content_fits(content, commands, effects, implicit_diffs, conflicts),
        effects.len() == commands.len(),
        0 <= k < commands.len(),
    ensures
        content.command_ids@.len() == commands.len(),
        content.command_ids@[k] == crate::review::attention::named_by(commands[k]),
        content.diffs@.len() == commands.len(),
        content.diffs@[k].command_id == crate::review::attention::named_by(commands[k]),
        content.diffs@[k].item_id == crate::review::attention::aims_at(commands[k]),
        (content.diffs@[k].operation == ProposalOperation::CreateItem) == (commands[k]
            is CreateItem),
        (content.diffs@[k].operation == ProposalOperation::ReplaceItem) == (commands[k]
            is ReplaceItem),
        (content.diffs@[k].operation == ProposalOperation::TrashItem) == (commands[k]
            is TrashItem),
        content.diffs@[k].before is Some == effects[k].before is Some,
        content.diffs@[k].after is Some,
        crate::items::model::item_same(effects[k].after, content.diffs@[k].after->0),
        effects[k].before is Some ==> crate::items::model::item_same(
            effects[k].before->0,
            content.diffs@[k].before->0,
        ),
        content.diffs@[k].changed_fields@ == crate::review::diffs::changed_field_list(
            effects[k].before,
            Some(effects[k].after),
        ),
{
    assert(crate::review::previews::diff_of(content.diffs@[k], commands[k], effects[k]));
}

/// The members that a review keeps are its proposals at their revisions, with the digests of
/// their payloads.
pub proof fn reviews_keep_their_proposals(
    members: Seq<StoredPreviewMember>,
    proposals: Seq<Proposal>,
    documents: Seq<Option<Vec<u8>>>,
    k: int,
)
    requires
        members_fit(members, proposals, documents),
        0 <= k < proposals.len(),
    ensures
        members.len() == proposals.len(),
        members[k].proposal_id == proposals[k].id,
        members[k].proposal_revision == proposals[k].revision,
        documents[k] is Some,
        members[k].payload_hash@ == crate::outside::sha256_of(documents[k]->0@),
        exists|i: int| 0 <= i < 32 && #[trigger] members[k].payload_hash@[i] != 0,
{
    let hash = members[k].payload_hash@;
    assert(crate::review::previews::payload_digested(documents[k]));
    if forall|i: int| 0 <= i < 32 ==> #[trigger] hash[i] == 0 {
        assert(hash =~= Seq::new(32, |i: int| 0u8));
    }
}

/// Each column of a review holds the part of the review that it is called.
pub proof fn columns_of_a_review_hold_its_parts(preview: StoredPreview, row: PreviewRow)
    requires
        preview_row_fits(preview, row),
    ensures
        row.id == preview.id,
        row.proposal_count == preview.proposal_count,
        row.command_count == preview.command_count,
        row.commands_hash@ == preview.commands_hash@,
        row.canonical_hash@ == preview.canonical_hash@,
        row.review_content_hash@ == preview.review_content_hash@,
        row.preview_hash@ == preview.preview_hash@,
        row.can_apply == preview.can_apply,
        row.created_at == preview.created_at,
        row.expires_at == preview.expires_at,
{
}

/// What is kept of a command that was carried out is what it did: its item before it, if it
/// was there, and after the whole batch, with the digests of both.
pub proof fn carried_out_commands_are_kept(
    row: AppliedEffectRow,
    k: int,
    command: ProposalCommand,
    effect: TransactionalItemEffect,
    last: Item,
    documents: EffectDocuments,
)
    requires
        effect_row_fits(row, k, command, effect, last, documents),
    ensures
        row.review_ordinal == k,
        row.ordinal == effect.execution_ordinal,
        row.command_id == crate::review::attention::named_by(command),
        row.item_id == crate::review::attention::aims_at(command),
        row.command_hash@ == crate::outside::sha256_of(documents.command@),
        row.after_revision == last.revision,
        row.after_deleted == (last.deleted_at is Some),
        row.before_revision is Some == effect.before is Some,
        row.before_deleted is Some == effect.before is Some,
        row.before_snapshot_hash is Some == effect.before is Some,
        effect.before is Some ==> row.before_revision->0 == effect.before->0.revision
            && row.before_deleted->0 == (effect.before->0.deleted_at is Some) && documents.before
            is Some && row.before_snapshot_hash->0@ == crate::review::hashes::snapshot_digest(
            documents.before->0@,
        ),
        row.after_snapshot_hash@ == crate::review::hashes::snapshot_digest(documents.after@),
        command is CreateItem ==> row.expected_revision is None,
        command is ReplaceItem ==> row.expected_revision is Some && row.expected_revision->0
            == command->ReplaceItem_expected_revision,
        command is TrashItem ==> row.expected_revision is Some && row.expected_revision->0
            == command->TrashItem_expected_revision,
        command is RestoreItem ==> row.expected_revision is Some && row.expected_revision->0
            == command->RestoreItem_expected_revision,
{
}

/// What a command did can be kept exactly if its item is known after the batch, its former
/// state is written down where there was one, and all numbers fit.
pub proof fn commands_can_be_kept_if_known(
    k: int,
    command: ProposalCommand,
    effect: TransactionalItemEffect,
    items: Seq<Item>,
    documents: EffectDocuments,
)
    requires
        k <= 32_767,
        effect.execution_ordinal <= 32_767,
        !(command is CreateItem) ==> command.spec_expected_revision()->0 <= i64::MAX,
        effect.before is Some ==> effect.before->0.revision <= i64::MAX,
    ensures
        effect_storable(k, command, effect, items, documents) <==> {
            let last = crate::review::diffs::item_with_id(
                items,
                crate::review::attention::aims_at(command),
            );
            &&& last is Some && last->0.revision <= i64::MAX
            &&& effect.before is Some ==> documents.before is Some
        },
{
}

/// Each column of an application holds the part of the application that it is called.
pub proof fn columns_of_an_application_hold_its_parts(
    row: LockedApplicationRow,
    application: StoredApplication,
)
    requires
        locked_row_holds(row, application),
    ensures
        row.revision == application.revision,
        row.status@ == crate::review::errors::application_status_text(application.status),
        row.effect_count == application.effect_count,
        row.fence_count == application.fence_count,
        row.undo_expires_at == application.undo_expires_at,
{
}

/// A former state is read only if it has the digest that was kept of it, and there is one
/// exactly where a digest was kept.
pub proof fn former_states_are_read_with_their_digest(row: StoredEffectRow)
    requires
        effect_row_sound(row),
    ensures
        row.before is Item == row.before_hash is Some,
        row.before is Absent == row.before_hash is None,
        row.before is Item ==> row.before_hash->0@ == crate::review::hashes::snapshot_digest(
            row.before->document@,
        ),
{
}

/// The fence of an item closes exactly if undoing changed the item and its revision can be
/// kept.
pub proof fn fences_close_with_their_item(fence: StoredFence, items: Seq<Item>, k: int)
    requires
        0 <= k < items.len(),
        items[k].id == fence.item_id,
        forall|j: int| 0 <= j < items.len() && j != k ==> (#[trigger] items[j]).id != fence.item_id,
    ensures
        fence_closes(fence, items) <==> items[k].revision <= i64::MAX,
        crate::review::undoing::closed_at(fence, items, items[k].revision as int),
{
    crate::review::showing::items_are_found_by_their_identity(items, fence.item_id, k);
}

/// Proposals come to a change set exactly if none of them is refused and their commands
/// together are a sound batch; they are refused otherwise, and only then.
pub proof fn proposals_come_to_a_change_set_or_are_refused(
    proposals: Seq<Proposal>,
    items: Seq<Vec<ReadItem>>,
    now: Instant,
    refusal: crate::review::errors::Refusal,
)
    ensures
        change_set_stands(proposals, items, now) <==> {
            &&& forall|k: int|
                0 <= k < proposals.len() ==> #[trigger] crate::review::requests::change_refusal(
                    proposals[k],
                    items[k]@,
                    now,
                ) is None
            &&& crate::proposals::application::well_formed(
                crate::review::requests::commands_of(proposals, items, proposals.len()),
            )
        },
        change_set_refused(proposals, items, now, refusal) ==> !change_set_stands(
            proposals,
            items,
            now,
        ),
{
    crate::review::asking::groups_are_refused_for_their_members(proposals, items, now);
}

/// The bytes of the items that a review was made against tell them apart: where there are as
/// many, each has the same identifier, the same revision, and is in the trash or not alike.
pub proof fn bytes_of_items_tell_them_apart(
    a: Seq<CanonicalItemRow>,
    b: Seq<CanonicalItemRow>,
    k: int,
)
    requires
        a.len() == b.len(),
        canonical_rows_bytes(a) == canonical_rows_bytes(b),
        0 <= k < a.len(),
    ensures
        a[k].id == b[k].id,
        a[k].revision == b[k].revision,
        a[k].deleted == b[k].deleted,
    decreases a.len(),
{
    let x = a.last();
    let y = b.last();
    let xs = crate::hashing::be_bytes(x.id as nat, 16);
    let ys = crate::hashing::be_bytes(y.id as nat, 16);
    let xr = crate::hashing::be_bytes(crate::hashing::unsigned_of(x.revision), 8);
    let yr = crate::hashing::be_bytes(crate::hashing::unsigned_of(y.revision), 8);
    let xf = seq![crate::review::hashes::flag_byte(x.deleted)];
    let yf = seq![crate::review::hashes::flag_byte(y.deleted)];
    crate::hashing::be_bytes_length(x.id as nat, 16);
    crate::hashing::be_bytes_length(y.id as nat, 16);
    crate::hashing::be_bytes_length(crate::hashing::unsigned_of(x.revision), 8);
    crate::hashing::be_bytes_length(crate::hashing::unsigned_of(y.revision), 8);
    let before_a = canonical_rows_bytes(a.drop_last());
    let before_b = canonical_rows_bytes(b.drop_last());
    lemma_rows_length(a.drop_last());
    lemma_rows_length(b.drop_last());
    let all_a = canonical_rows_bytes(a);
    let all_b = canonical_rows_bytes(b);
    let n = before_a.len() as int;
    assert(all_a == before_a + (xs + xr + xf));
    assert(all_b == before_b + (ys + yr + yf));
    assert(all_a.take(n) =~= before_a);
    assert(all_b.take(n) =~= before_b);
    assert(all_a.subrange(n, n + 16) =~= xs);
    assert(all_b.subrange(n, n + 16) =~= ys);
    assert(all_a.subrange(n + 16, n + 24) =~= xr);
    assert(all_b.subrange(n + 16, n + 24) =~= yr);
    assert(all_a[n + 24] == crate::review::hashes::flag_byte(x.deleted));
    assert(all_b[n + 24] == crate::review::hashes::flag_byte(y.deleted));
    if k < a.len() - 1 {
        bytes_of_items_tell_them_apart(a.drop_last(), b.drop_last(), k);
    } else {
        lemma_powers();
        crate::hashing::be_bytes_injective(x.id as nat, y.id as nat, 16);
        crate::hashing::be_bytes_injective(
            crate::hashing::unsigned_of(x.revision),
            crate::hashing::unsigned_of(y.revision),
            8,
        );
    }
}

proof fn lemma_powers()
    ensures
        vstd::arithmetic::power::pow(256, 8) == 0x1_0000_0000_0000_0000,
        vstd::arithmetic::power::pow(256, 16) == 0x1_0000_0000_0000_0000_0000_0000_0000_0000,
{
    reveal_with_fuel(vstd::arithmetic::power::pow, 9);
    vstd::arithmetic::power::lemma_pow_adds(256, 8, 8);
}

proof fn lemma_rows_length(rows: Seq<CanonicalItemRow>)
    ensures
        canonical_rows_bytes(rows).len() == 25 * rows.len(),
    decreases rows.len(),
{
    if rows.len() > 0 {
        lemma_rows_length(rows.drop_last());
        crate::hashing::be_bytes_length(rows.last().id as nat, 16);
        crate::hashing::be_bytes_length(crate::hashing::unsigned_of(rows.last().revision), 8);
    }
}

/// The bytes of what a review was made against change with every item, and with every item
/// that is managed elsewhere.
pub proof fn bytes_of_a_workspace_tell_it_apart(
    workspace_id: Uuid,
    a: Seq<CanonicalItemRow>,
    a_managed: Seq<Uuid>,
    b: Seq<CanonicalItemRow>,
    b_managed: Seq<Uuid>,
)
    requires
        a.len() == b.len(),
        canonical_bytes(workspace_id, a, a_managed) == canonical_bytes(workspace_id, b, b_managed),
    ensures
        canonical_rows_bytes(a) == canonical_rows_bytes(b),
        ids_bytes(a_managed) == ids_bytes(b_managed),
{
    let head = vstd::utf8::encode_utf8("dayweave.proposal.canonical-items.v2\0items\0"@)
        + crate::hashing::be_bytes(workspace_id as nat, 16);
    let mid = vstd::utf8::encode_utf8("\0provider-managed-items\0"@);
    lemma_rows_length(a);
    lemma_rows_length(b);
    let x = canonical_bytes(workspace_id, a, a_managed);
    let y = canonical_bytes(workspace_id, b, b_managed);
    let n = head.len() as int;
    let m = canonical_rows_bytes(a).len() as int;
    assert(x.subrange(n, n + m) =~= canonical_rows_bytes(a));
    assert(y.subrange(n, n + m) =~= canonical_rows_bytes(b));
    assert(x.skip(n + m + mid.len()) =~= ids_bytes(a_managed));
    assert(y.skip(n + m + mid.len()) =~= ids_bytes(b_managed));
}

/// A review tells how grave a change set is by the gravest of the risks that it shows, and
/// shows a risk for every reason there is.
pub proof fn reviews_tell_the_gravest_risk(
    content: ReviewContent,
    commands: Seq<ProposalCommand>,
    effects: Seq<TransactionalItemEffect>,
    implicit_diffs: Vec<ProposalImplicitItemDiff>,
    conflicts: Seq<ProposalConflict>,
    k: int,
    code: ProposalRiskCode,
)
    requires
        content_fits(content, commands, effects, implicit_diffs, conflicts),
        0 <= k < commands.len(),
        crate::review::attention::reason_for(code, commands[k], known_effect(effects, k)),
    ensures
        exists|i: int|
            0 <= i < content.risks@.len() && (#[trigger] content.risks@[i]).code == code
                && content.risks@[i].command_id == Some(
                crate::review::attention::named_by(commands[k]),
            ),
        crate::review::attention::gravity(code, commands[k]) == ProposalRiskLevel::High
            ==> content.maximum_risk == ProposalRiskLevel::High || content.maximum_risk
            == ProposalRiskLevel::Critical,
        crate::review::attention::gravity(code, commands[k]) == ProposalRiskLevel::Medium
            ==> content.maximum_risk != ProposalRiskLevel::Low,
        content.maximum_risk != ProposalRiskLevel::Critical,
{
    let risks = crate::review::risks::change_set_risks(commands, effects);
    assert(crate::review::risks::risk_views(content.risks@) == risks);
    assert(content.risks@.len() == risks.len());
    assert forall|i: int| 0 <= i < risks.len() implies (#[trigger] risks[i])
        == content.risks@[i]@ by {
        assert(crate::review::risks::risk_views(content.risks@)[i] == content.risks@[i]@);
    }
    crate::review::attention::reasons_are_told(commands, effects, k, code);
    let i = choose|i: int|
        0 <= i < risks.len() && (#[trigger] risks[i]).code == code
            && crate::review::attention::tells_of(risks[i], commands[k]);
    assert(content.risks@[i].code == code);
    gravest_risk_counts(content.maximum_risk, content.risks@, i);
    let j = choose|j: int|
        0 <= j < content.risks@.len() && (#[trigger] content.risks@[j]).level
            == content.maximum_risk;
    crate::review::attention::told_risks_have_reasons(commands, effects, j);
    assert(risks[j] == content.risks@[j]@);
}

/// The effect that a trial is told to have had on an item is what it had: the item before the
/// trial, if it was there, and as the trial left it, at the place at which its command was
/// carried out.
pub proof fn trials_tell_what_they_did(
    command: ProposalCommand,
    ordinal: int,
    initial: Map<Uuid, Item>,
    left: Map<Uuid, Item>,
    effect: TransactionalItemEffect,
)
    requires
        crate::review::simulation::effect_fits(command, ordinal, initial, left, effect),
    ensures
        ({
            let id = crate::review::attention::aims_at(command);
            &&& effect.before is Some == initial.contains_key(id)
            &&& effect.before is Some ==> crate::items::model::item_same(
                initial[id],
                effect.before->0,
            )
            &&& left.contains_key(id)
            &&& crate::items::model::item_same(left[id], effect.after)
            &&& effect.execution_ordinal == ordinal
        }),
{
}

} // verus!
