//! The undoing of an application: when it is refused, and what it does.
use vstd::prelude::*;

use crate::hashing::same_hash;
use crate::items::commands::{
    TransactionalGraphMode, TransactionalItemCommand, TransactionalItemEffect,
};
use crate::items::model::{Item, ItemRepositoryError};
use crate::proposals::application::{
    ProposalApplicationStatus, ProposalCommand, ProposalConflict, ProposalConflictCode,
    ProposalOperation, ProposalUndoRequest,
};
use crate::review::applications::StoredApplication;
use crate::review::conflicts::item_conflict;
use crate::review::diffs::find_item;
use crate::review::errors::{
    bytes32, parse_operation, revision_i64, revision_u64, validation, ProposalApplicationError,
};
use crate::review::hashes::snapshot_hash;
use crate::time::{Instant, Uuid};

verus! {

/// Whether a request to undo names a revision.
pub fn check_undo_request(request: &ProposalUndoRequest) -> (result: Result<
    (),
    ProposalApplicationError,
>)
    ensures
        match result {
            Ok(_) => request.expected_application_revision > 0,
            Err(error) => request.expected_application_revision == 0 && error@
                == crate::review::errors::Refusal::Validation(
                "expected_application_revision must be positive"@,
            ),
        },
{
    if request.expected_application_revision == 0 {
        Err(validation("expected_application_revision must be positive"))
    } else {
        Ok(())
    }
}

/// Why an application cannot be undone: it was undone already, it is not at the
/// revision that the request names, or it is too late.
pub open spec fn undo_refusal(
    application: StoredApplication,
    expected_revision: u64,
    now: Instant,
) -> Option<crate::review::errors::Refusal> {
    if application.status != ProposalApplicationStatus::Applied {
        Some(crate::review::errors::Refusal::Stale(ProposalConflictCode::AlreadyApplied))
    } else if application.revision != expected_revision {
        Some(
            crate::review::errors::Refusal::RevisionConflict {
                expected: expected_revision,
                actual: application.revision,
            },
        )
    } else if application.undo_expires_at <= now {
        Some(crate::review::errors::Refusal::Stale(ProposalConflictCode::UndoExpired))
    } else {
        None
    }
}

/// Whether an application can be undone.
pub fn check_undo(
    application: &StoredApplication,
    request: &ProposalUndoRequest,
    now: Instant,
) -> (result: Result<(), ProposalApplicationError>)
    ensures
        match result {
            Ok(_) => undo_refusal(*application, request.expected_application_revision, now) is None,
            Err(error) => undo_refusal(*application, request.expected_application_revision, now)
                == Some(error@),
        },
{
    if application.status != ProposalApplicationStatus::Applied {
        return Err(ProposalApplicationError::Stale(ProposalConflictCode::AlreadyApplied));
    }
    if application.revision != request.expected_application_revision {
        return Err(
            ProposalApplicationError::RevisionConflict {
                expected: request.expected_application_revision,
                actual: application.revision,
            },
        );
    }
    if application.undo_expires_at <= now {
        return Err(ProposalApplicationError::Stale(ProposalConflictCode::UndoExpired));
    }
    Ok(())
}

/// An application that was undone cannot be undone again, whatever a request names and
/// whenever it comes.
pub proof fn undone_once(application: StoredApplication, expected_revision: u64, now: Instant)
    requires
        application.status == ProposalApplicationStatus::Undone,
    ensures
        undo_refusal(application, expected_revision, now) == Some(
            crate::review::errors::Refusal::Stale(ProposalConflictCode::AlreadyApplied),
        ),
{
}

/// The state of an item that undoing relies on.
#[derive(Clone, Copy, Debug, PartialEq, Eq, Structural)]
pub struct StoredFence {
    pub item_id: Uuid,
    pub applied_revision: u64,
    pub applied_deleted: bool,
}

/// Reads the state of an item that undoing relies on.
pub fn stored_fence(item_id: Uuid, applied_revision: i64, applied_deleted: bool) -> (result: Result<
    StoredFence,
    ProposalApplicationError,
>)
    ensures
        match result {
            Ok(fence) => fence.item_id == item_id && fence.applied_revision == applied_revision
                && fence.applied_deleted == applied_deleted,
            Err(error) => applied_revision < 0 && error@ == crate::review::errors::Refusal::Internal,
        },
{
    let revision: u64 = revision_u64(applied_revision)?;
    Ok(StoredFence { item_id, applied_revision: revision, applied_deleted })
}

/// Why undoing is refused for the state of one item: the item is gone, or it was changed
/// after the application.
pub open spec fn fence_refusal(fence: StoredFence, items: Seq<Item>) -> Option<
    crate::review::errors::Refusal,
> {
    match crate::review::diffs::item_with_id(items, fence.item_id) {
        None => Some(crate::review::errors::Refusal::NotFound),
        Some(item) => if item.revision != fence.applied_revision || (item.deleted_at is Some)
            != fence.applied_deleted {
            Some(crate::review::errors::Refusal::Stale(ProposalConflictCode::UndoDiverged))
        } else {
            None
        },
    }
}

/// Why undoing is refused for the items from place `k` on.
pub open spec fn first_fence_refusal(fences: Seq<StoredFence>, items: Seq<Item>, k: int) -> Option<
    crate::review::errors::Refusal,
>
    decreases fences.len() - k,
{
    if k < 0 || k >= fences.len() {
        None
    } else {
        match fence_refusal(fences[k], items) {
            Some(refusal) => Some(refusal),
            None => first_fence_refusal(fences, items, k + 1),
        }
    }
}

/// Whether every item is still in the state that the application left it in. `items` are
/// those that the fences are about, as far as they exist.
pub fn validate_fences(fences: &Vec<StoredFence>, items: &Vec<Item>) -> (result: Result<
    (),
    ProposalApplicationError,
>)
    ensures
        match result {
            Ok(_) => first_fence_refusal(fences@, items@, 0) is None,
            Err(error) => first_fence_refusal(fences@, items@, 0) == Some(error@),
        },
{
    let mut k: usize = 0;
    while k < fences.len()
        invariant
            k <= fences.len(),
            first_fence_refusal(fences@, items@, 0) == first_fence_refusal(
                fences@,
                items@,
                k as int,
            ),
        decreases fences.len() - k,
    {
        let fence: StoredFence = fences[k];
        match find_item(items, fence.item_id) {
            None => {
                return Err(ProposalApplicationError::NotFound);
            },
            Some(item) => {
                if item.revision != fence.applied_revision || item.deleted_at.is_some()
                    != fence.applied_deleted {
                    return Err(
                        ProposalApplicationError::Stale(ProposalConflictCode::UndoDiverged),
                    );
                }
            },
        }
        k = k + 1;
    }
    Ok(())
}

proof fn lemma_fences_hold(fences: Seq<StoredFence>, items: Seq<Item>, from: int, k: int)
    requires
        first_fence_refusal(fences, items, from) is None,
        0 <= from <= k < fences.len(),
    ensures
        fence_refusal(fences[k], items) is None,
    decreases k - from,
{
    if from < k {
        lemma_fences_hold(fences, items, from + 1, k);
    }
}

/// An application is undone only while none of the items that it changed was changed
/// since: every one has the revision that the application gave it, and is in the trash
/// exactly if the application left it there.
pub proof fn undo_needs_untouched_items(fences: Seq<StoredFence>, items: Seq<Item>, k: int)
    requires
        first_fence_refusal(fences, items, 0) is None,
        0 <= k < fences.len(),
    ensures
        crate::review::diffs::item_with_id(items, fences[k].item_id) matches Some(item)
            && item.revision == fences[k].applied_revision && (item.deleted_at is Some)
            == fences[k].applied_deleted,
{
    lemma_fences_hold(fences, items, 0, k);
}

/// What a command did, as far as undoing it depends on it.
#[derive(Debug)]
pub struct StoredEffect {
    pub operation: ProposalOperation,
    pub item_id: Uuid,
    pub before: Option<Item>,
}

/// A former state of an item as it is stored.
#[derive(Debug)]
pub enum StoredSnapshot {
    Absent,
    Unreadable,
    /// The item, and the document that it is written down as.
    Item { item: Item, document: Vec<u8> },
}

/// The columns of a command that was carried out.
#[derive(Debug)]
pub struct StoredEffectRow {
    pub operation: String,
    pub item_id: Uuid,
    pub before: StoredSnapshot,
    pub before_hash: Option<Vec<u8>>,
}

/// Whether the columns hold a command that was carried out: the former state of its
/// item, if there is one, has the digest that was stored beside it.
pub open spec fn effect_row_sound(row: StoredEffectRow) -> bool {
    &&& exists|operation: ProposalOperation|
        row.operation@ == #[trigger] crate::review::errors::operation_name_text(operation)
    &&& match (row.before, row.before_hash) {
        (StoredSnapshot::Item { document, .. }, Some(hash)) => hash@
            == crate::review::hashes::snapshot_digest(document@) && hash@.len() == 32,
        (StoredSnapshot::Absent, None) => true,
        _ => false,
    }
}

/// Reads a command that was carried out.
pub fn stored_effect(row: StoredEffectRow) -> (result: Result<
    StoredEffect,
    ProposalApplicationError,
>)
    ensures
        match result {
            Ok(effect) => {
                &&& effect_row_sound(row)
                &&& row.operation@ == crate::review::errors::operation_name_text(effect.operation)
                &&& effect.item_id == row.item_id
                &&& effect.before == match row.before {
                    StoredSnapshot::Item { item, .. } => Some(item),
                    _ => None,
                }
            },
            Err(error) => !effect_row_sound(row) && error@
                == crate::review::errors::Refusal::Internal,
        },
{
    let before: Option<Item> = match (row.before, row.before_hash) {
        (StoredSnapshot::Item { item, document }, Some(hash)) => {
            let stored: [u8; 32] = bytes32(hash)?;
            let actual: [u8; 32] = snapshot_hash(&document);
            if !same_hash(&stored, &actual) {
                return Err(ProposalApplicationError::Internal);
            }
            Some(item)
        },
        (StoredSnapshot::Absent, None) => None,
        _ => {
            return Err(ProposalApplicationError::Internal);
        },
    };
    let operation: ProposalOperation = parse_operation(row.operation.as_str())?;
    assert(row.operation@ == crate::review::errors::operation_name_text(operation));
    Ok(StoredEffect { operation, item_id: row.item_id, before })
}

/// The command that takes back what a command did: an item that was created goes to the
/// trash, and any other one gets its former state back.
pub open spec fn inverse_of(effect: StoredEffect, current_revision: u64) -> Option<
    TransactionalItemCommand,
> {
    match effect.operation {
        ProposalOperation::CreateItem => Some(
            TransactionalItemCommand::Trash {
                item_id: effect.item_id,
                expected_revision: current_revision,
            },
        ),
        _ => match effect.before {
            Some(before) => Some(
                TransactionalItemCommand::RestoreSnapshot {
                    item_id: effect.item_id,
                    expected_revision: current_revision,
                    snapshot: Box::new(before),
                },
            ),
            None => None,
        },
    }
}

/// The command that takes back what a command did.
pub fn inverse_command(effect: StoredEffect, current_revision: u64) -> (result: Result<
    TransactionalItemCommand,
    ProposalApplicationError,
>)
    ensures
        match result {
            Ok(command) => inverse_of(effect, current_revision) == Some(command),
            Err(error) => inverse_of(effect, current_revision) is None && error@
                == crate::review::errors::Refusal::Internal,
        },
{
    match effect.operation {
        ProposalOperation::CreateItem => Ok(
            TransactionalItemCommand::Trash {
                item_id: effect.item_id,
                expected_revision: current_revision,
            },
        ),
        ProposalOperation::ReplaceItem
        | ProposalOperation::TrashItem
        | ProposalOperation::RestoreItem => match effect.before {
            Some(before) => Ok(
                TransactionalItemCommand::RestoreSnapshot {
                    item_id: effect.item_id,
                    expected_revision: current_revision,
                    snapshot: Box::new(before),
                },
            ),
            None => Err(ProposalApplicationError::Internal),
        },
    }
}

/// Undoing a change of an item brings its former state back: apart from the revision and
/// the time of the change, every field has the value that it had before the change.
pub proof fn undo_brings_the_former_state_back(
    items: Map<Uuid, Item>,
    effect: StoredEffect,
    command: TransactionalItemCommand,
    outcome: Result<Item, ItemRepositoryError>,
    now: Instant,
    mode: TransactionalGraphMode,
    plan: crate::items::commands::ItemCommandPlan,
)
    requires
        effect.operation != ProposalOperation::CreateItem,
        items.contains_key(effect.item_id),
        items[effect.item_id].revision < u64::MAX,
        inverse_of(effect, items[effect.item_id].revision) == Some(command),
        crate::items::commands::plan_fits(items, command, outcome, now, mode, plan),
    ensures
        effect.before matches Some(before) && (Item {
            revision: before.revision,
            updated_at: before.updated_at,
            ..plan.item
        }) == before,
        plan.item.revision == items[effect.item_id].revision + 1,
{
    crate::items::commands::snapshot_comes_back_whole(
        items,
        effect.item_id,
        items[effect.item_id].revision,
        effect.before->0,
        outcome,
        now,
        mode,
        plan,
    );
}

/// Undoing the creation of an item puts it into the trash, and nothing else.
pub proof fn undo_of_a_creation_trashes_the_item(
    effect: StoredEffect,
    current_revision: u64,
    items: Map<Uuid, Item>,
    outcome: Result<Item, ItemRepositoryError>,
    now: Instant,
    mode: TransactionalGraphMode,
    plan: crate::items::commands::ItemCommandPlan,
)
    requires
        effect.operation == ProposalOperation::CreateItem,
        crate::items::commands::plan_fits(
            items,
            inverse_of(effect, current_revision)->0,
            outcome,
            now,
            mode,
            plan,
        ),
    ensures
        plan.operation == crate::items::commands::ItemOperation::Trashed,
        plan.change_kind == crate::items::commands::ChangeKind::Tombstone,
        plan.base_revision == Some(current_revision),
        !plan.inserts_row,
        !plan.writes_edges,
{
}

/// Whether the graph of dependencies is validated at once while commands are taken
/// back: only where there is a single one.
pub fn undo_graph_mode(count: usize) -> (result: TransactionalGraphMode)
    ensures
        result == (if count == 1 {
            TransactionalGraphMode::Immediate
        } else {
            TransactionalGraphMode::Deferred
        }),
{
    if count == 1 {
        TransactionalGraphMode::Immediate
    } else {
        TransactionalGraphMode::Deferred
    }
}

/// The items that existed before the application, in the order of the effects.
pub open spec fn undone_targets(effects: Seq<StoredEffect>) -> Seq<Uuid>
    decreases effects.len(),
{
    if effects.len() == 0 {
        Seq::empty()
    } else if effects.last().operation == ProposalOperation::CreateItem {
        undone_targets(effects.drop_last())
    } else {
        undone_targets(effects.drop_last()).push(effects.last().item_id)
    }
}

/// The items whose dependencies are written anew when commands are taken back: those
/// that existed before the application.
pub fn undone_dependency_targets(effects: &Vec<StoredEffect>) -> (result: Vec<Uuid>)
    ensures
        result@ == undone_targets(effects@),
{
    let mut targets: Vec<Uuid> = Vec::new();
    let mut i: usize = 0;
    assert(effects@.take(0).len() == 0);
    while i < effects.len()
        invariant
            i <= effects.len(),
            targets@ == undone_targets(effects@.take(i as int)),
        decreases effects.len() - i,
    {
        assert(effects@.take(i + 1).drop_last() =~= effects@.take(i as int));
        assert(effects@.take(i + 1).last() == effects@[i as int]);
        if effects[i].operation != ProposalOperation::CreateItem {
            targets.push(effects[i].item_id);
        }
        i = i + 1;
    }
    assert(effects@.take(i as int) =~= effects@);
    targets
}

/// The revision that an item has after undoing.
#[derive(Clone, Copy, Debug, PartialEq, Eq, Structural)]
pub struct UndoneFence {
    pub item_id: Uuid,
    pub undo_revision: i64,
}

/// Whether the item of a fence was changed by undoing, and its revision can be stored.
pub open spec fn fence_closes(fence: StoredFence, items: Seq<Item>) -> bool {
    crate::review::diffs::item_with_id(items, fence.item_id) matches Some(item) && item.revision
        <= i64::MAX
}

/// Whether the item of a fence has this revision after undoing.
pub open spec fn closed_at(fence: StoredFence, items: Seq<Item>, revision: int) -> bool {
    match crate::review::diffs::item_with_id(items, fence.item_id) {
        Some(item) => item.revision == revision,
        None => false,
    }
}

/// The revisions that the items have after undoing. `items` are those that undoing
/// changed: it must have changed every item that the application changed.
pub fn fences_after_undo(fences: &Vec<StoredFence>, items: &Vec<Item>) -> (result: Result<
    Vec<UndoneFence>,
    ProposalApplicationError,
>)
    ensures
        match result {
            Ok(revisions) => revisions@.len() == fences@.len() && forall|k: int|
                0 <= k < fences@.len() ==> {
                    &&& (#[trigger] revisions@[k]).item_id == fences@[k].item_id
                    &&& fence_closes(fences@[k], items@)
                    &&& closed_at(fences@[k], items@, revisions@[k].undo_revision as int)
                },
            Err(error) => error@ == crate::review::errors::Refusal::Internal && exists|k: int|
                0 <= k < fences@.len() && !fence_closes(#[trigger] fences@[k], items@),
        },
{
    let mut revisions: Vec<UndoneFence> = Vec::new();
    let mut k: usize = 0;
    while k < fences.len()
        invariant
            k <= fences.len(),
            revisions@.len() == k,
            forall|j: int|
                0 <= j < k ==> {
                    &&& (#[trigger] revisions@[j]).item_id == fences@[j].item_id
                    &&& fence_closes(fences@[j], items@)
                    &&& closed_at(fences@[j], items@, revisions@[j].undo_revision as int)
                },
        decreases fences.len() - k,
    {
        let revision: u64 = match find_item(items, fences[k].item_id) {
            Some(item) => item.revision,
            None => {
                assert(!fence_closes(fences@[k as int], items@));
                return Err(ProposalApplicationError::Internal);
            },
        };
        let undo_revision: i64 = match revision_i64(revision) {
            Ok(stored) => stored,
            Err(error) => {
                assert(!fence_closes(fences@[k as int], items@));
                return Err(error);
            },
        };
        revisions.push(UndoneFence { item_id: fences[k].item_id, undo_revision });
        k = k + 1;
    }
    Ok(revisions)
}

/// Whether the application was still there to be marked as undone. `updated` is how many
/// rows were.
pub fn check_marked_undone(updated: u64) -> (result: Result<(), ProposalApplicationError>)
    ensures
        match result {
            Ok(_) => updated == 1,
            Err(error) => updated != 1 && error@ == crate::review::errors::Refusal::Stale(
                ProposalConflictCode::UndoDiverged,
            ),
        },
{
    if updated == 1 {
        Ok(())
    } else {
        Err(ProposalApplicationError::Stale(ProposalConflictCode::UndoDiverged))
    }
}

/// Whether some command was carried out at this place of the order.
pub open spec fn ordinal_taken(effects: Seq<TransactionalItemEffect>, ordinal: int) -> bool {
    exists|k: int| 0 <= k < effects.len() && (#[trigger] effects[k]).execution_ordinal == ordinal
}

fn find_ordinal(effects: &Vec<TransactionalItemEffect>, ordinal: usize) -> (result: Option<usize>)
    ensures
        match result {
            Some(k) => k < effects@.len() && effects@[k as int].execution_ordinal == ordinal,
            None => !ordinal_taken(effects@, ordinal as int),
        },
{
    let mut k: usize = 0;
    while k < effects.len()
        invariant
            k <= effects.len(),
            forall|j: int|
                0 <= j < k ==> (#[trigger] effects@[j]).execution_ordinal != ordinal,
        decreases effects.len() - k,
    {
        if effects[k].execution_ordinal == ordinal {
            return Some(k);
        }
        k = k + 1;
    }
    None
}

/// The conflict of a change set without commands.
pub open spec fn no_commands_conflict() -> crate::review::conflicts::ConflictView {
    crate::review::conflicts::ConflictView {
        code: ProposalConflictCode::InvalidItem,
        command_id: None,
        item_id: None,
        expected_revision: None,
        actual_revision: None,
        summary: "The proposal contains no item commands."@,
    }
}

/// The order in which the commands of a trial are taken back: the last one that was
/// carried out first. The places of the commands must be those of one order.
pub fn undo_trial_order(
    commands: &Vec<ProposalCommand>,
    effects: &Vec<TransactionalItemEffect>,
) -> (result: Result<Vec<usize>, ProposalConflict>)
    ensures
        match result {
            Ok(order) => {
                &&& commands@.len() > 0
                &&& effects@.len() == commands@.len()
                &&& order@.len() == effects@.len()
                &&& forall|p: int|
                    0 <= p < order@.len() ==> (#[trigger] order@[p]) < effects@.len()
                        && effects@[order@[p] as int].execution_ordinal == order@.len() - 1 - p
            },
            Err(conflict) => if commands@.len() == 0 {
                conflict@ == no_commands_conflict()
            } else {
                &&& conflict@ == crate::review::conflicts::conflict_of(
                    commands@[0],
                    ItemRepositoryError::Internal,
                )
                &&& effects@.len() != commands@.len() || exists|ordinal: int|
                    0 <= ordinal < effects@.len() && !#[trigger] ordinal_taken(effects@, ordinal)
            },
        },
{
    if commands.len() == 0 {
        return Err(
            ProposalConflict {
                code: ProposalConflictCode::InvalidItem,
                command_id: None,
                item_id: None,
                expected_revision: None,
                actual_revision: None,
                summary: "The proposal contains no item commands.".to_owned(),
            },
        );
    }
    if commands.len() != effects.len() {
        return Err(item_conflict(&commands[0], &ItemRepositoryError::Internal));
    }
    let mut order: Vec<usize> = Vec::new();
    let mut left: usize = effects.len();
    while left > 0
        invariant
            left <= effects@.len(),
            effects@.len() == commands@.len() > 0,
            order@.len() == effects@.len() - left,
            forall|p: int|
                0 <= p < order@.len() ==> (#[trigger] order@[p]) < effects@.len()
                    && effects@[order@[p] as int].execution_ordinal == effects@.len() - 1 - p,
        decreases left,
    {
        match find_ordinal(effects, left - 1) {
            Some(k) => {
                order.push(k);
            },
            None => {
                assert(!ordinal_taken(effects@, left - 1));
                return Err(item_conflict(&commands[0], &ItemRepositoryError::Internal));
            },
        }
        left = left - 1;
    }
    Ok(order)
}

/// The items that existed before a trial, in the order in which its commands are taken
/// back.
pub open spec fn trial_targets(effects: Seq<TransactionalItemEffect>, order: Seq<usize>) -> Seq<Uuid>
    decreases order.len(),
{
    if order.len() == 0 {
        Seq::empty()
    } else {
        let rest = trial_targets(effects, order.drop_last());
        let effect = effects[order.last() as int];
        if effect.before is Some {
            rest.push(effect.after.id)
        } else {
            rest
        }
    }
}

/// The items whose dependencies are written anew when the commands of a trial are taken
/// back.
pub fn trial_dependency_targets(
    effects: &Vec<TransactionalItemEffect>,
    order: &Vec<usize>,
) -> (result: Vec<Uuid>)
    requires
        forall|p: int| 0 <= p < order@.len() ==> (#[trigger] order@[p]) < effects@.len(),
    ensures
        result@ == trial_targets(effects@, order@),
{
    let mut targets: Vec<Uuid> = Vec::new();
    let mut i: usize = 0;
    assert(order@.take(0).len() == 0);
    while i < order.len()
        invariant
            i <= order.len(),
            forall|p: int| 0 <= p < order@.len() ==> (#[trigger] order@[p]) < effects@.len(),
            targets@ == trial_targets(effects@, order@.take(i as int)),
        decreases order.len() - i,
    {
        assert(order@.take(i + 1).drop_last() =~= order@.take(i as int));
        assert(order@.take(i + 1).last() == order@[i as int]);
        let effect: &TransactionalItemEffect = &effects[order[i]];
        if effect.before.is_some() {
            targets.push(effect.after.id);
        }
        i = i + 1;
    }
    assert(order@.take(i as int) =~= order@);
    targets
}

/// A command of a change set as it is carried out, at the revision that its item has by
/// then. `current` is the item, if it exists.
pub fn command_at_current_revision(command: ProposalCommand, current: Option<u64>) -> (result:
    Result<TransactionalItemCommand, ItemRepositoryError>)
    ensures
        match command {
            ProposalCommand::CreateItem { item, .. } => result == Ok::<
                TransactionalItemCommand,
                ItemRepositoryError,
            >(TransactionalItemCommand::Create(item)),
            _ => match current {
                None => result == Err::<TransactionalItemCommand, ItemRepositoryError>(
                    ItemRepositoryError::NotFound(command.spec_target()),
                ),
                Some(revision) => result == Ok::<TransactionalItemCommand, ItemRepositoryError>(
                    match command {
                        ProposalCommand::ReplaceItem { item_id, item, .. } => {
                            TransactionalItemCommand::Replace {
                                item_id,
                                expected_revision: revision,
                                replacement: item,
                            }
                        },
                        ProposalCommand::TrashItem { item_id, .. } => {
                            TransactionalItemCommand::Trash { item_id, expected_revision: revision }
                        },
                        _ => TransactionalItemCommand::Restore {
                            item_id: command.spec_target(),
                            expected_revision: revision,
                        },
                    },
                ),
            },
        },
{
    match command {
        ProposalCommand::CreateItem { item, .. } => Ok(TransactionalItemCommand::Create(item)),
        ProposalCommand::ReplaceItem { item_id, item, .. } => match current {
            Some(expected_revision) => Ok(
                TransactionalItemCommand::Replace { item_id, expected_revision, replacement: item },
            ),
            None => Err(ItemRepositoryError::NotFound(item_id)),
        },
        ProposalCommand::TrashItem { item_id, .. } => match current {
            Some(expected_revision) => Ok(
                TransactionalItemCommand::Trash { item_id, expected_revision },
            ),
            None => Err(ItemRepositoryError::NotFound(item_id)),
        },
        ProposalCommand::RestoreItem { item_id, .. } => match current {
            Some(expected_revision) => Ok(
                TransactionalItemCommand::Restore { item_id, expected_revision },
            ),
            None => Err(ItemRepositoryError::NotFound(item_id)),
        },
    }
}

} // verus!
