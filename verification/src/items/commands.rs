//! Commands on items: when they are refused, and what they write.
use std::collections::BTreeMap;

use vstd::prelude::*;

use crate::ids::insert_id;
use crate::items::hierarchy::{
    projected_has_active_children, validate_projected_blocker, validate_projected_parent,
};
use crate::items::model::{Item, ItemPolicy, ItemRepositoryError, NewItem, ReplaceItem};
use crate::time::{Instant, Uuid};

verus! {

/// One change of one item within a batch.
#[allow(inconsistent_fields)]
#[derive(Debug)]
pub enum TransactionalItemCommand {
    Create(NewItem),
    Replace { item_id: Uuid, expected_revision: u64, replacement: ReplaceItem },
    Trash { item_id: Uuid, expected_revision: u64 },
    Restore { item_id: Uuid, expected_revision: u64 },
    /// Brings back a former state of an item, under a new revision.
    RestoreSnapshot { item_id: Uuid, expected_revision: u64, snapshot: Box<Item> },
}

/// An item before and after a command.
#[derive(Debug)]
pub struct TransactionalItemEffect {
    pub before: Option<Item>,
    pub after: Item,
    /// The place of the command in the order in which the batch was carried out.
    pub execution_ordinal: usize,
}

/// The item that a command changes, if it is there already.
pub open spec fn changed_item(command: TransactionalItemCommand) -> Option<Uuid> {
    match command {
        TransactionalItemCommand::Create(_) => None,
        TransactionalItemCommand::Replace { item_id, .. } => Some(item_id),
        TransactionalItemCommand::Trash { item_id, .. } => Some(item_id),
        TransactionalItemCommand::Restore { item_id, .. } => Some(item_id),
        TransactionalItemCommand::RestoreSnapshot { item_id, .. } => Some(item_id),
    }
}

/// The item that a command changes, if it is there already, as it is before the command.
pub fn item_before(command: &TransactionalItemCommand, items: &BTreeMap<Uuid, Item>) -> (result:
    Option<Item>)
    ensures
        match changed_item(*command) {
            Some(id) => if items@.contains_key(id) {
                result matches Some(before) && crate::items::model::item_same(items@[id], before)
            } else {
                result is None
            },
            None => result is None,
        },
{
    let id: Uuid = match command {
        TransactionalItemCommand::Create(_) => {
            return None;
        },
        TransactionalItemCommand::Replace { item_id, .. } => *item_id,
        TransactionalItemCommand::Trash { item_id, .. } => *item_id,
        TransactionalItemCommand::Restore { item_id, .. } => *item_id,
        TransactionalItemCommand::RestoreSnapshot { item_id, .. } => *item_id,
    };
    match items.get(&id) {
        Some(item) => Some(item.clone()),
        None => None,
    }
}

/// What a command did that was carried out on its own: the item before it and the item that
/// was stored.
pub fn command_effect(before: Option<Item>, after: Item) -> (result: TransactionalItemEffect)
    ensures
        result == (TransactionalItemEffect { before, after, execution_ordinal: 0 }),
{
    TransactionalItemEffect { before, after, execution_ordinal: 0 }
}

/// When the dependency graph is validated, and whether new items are staged first.
#[derive(Clone, Copy, Debug, PartialEq, Eq, Structural)]
pub enum TransactionalGraphMode {
    Immediate,
    Deferred,
    DeferredWithStagedCreates,
}

impl TransactionalGraphMode {
    /// Whether the graph is validated after each command.
    pub fn validates_immediately(self) -> (result: bool)
        ensures
            result == (self == TransactionalGraphMode::Immediate),
    {
        self == TransactionalGraphMode::Immediate
    }

    /// Whether the rows of new items exist before their commands are carried out.
    pub fn uses_staged_creates(self) -> (result: bool)
        ensures
            result == (self == TransactionalGraphMode::DeferredWithStagedCreates),
    {
        self == TransactionalGraphMode::DeferredWithStagedCreates
    }
}

/// What happened to an item, as subscribers are told.
#[derive(Clone, Copy, Debug, PartialEq, Eq, Structural)]
pub enum ItemOperation {
    Created,
    Updated,
    Trashed,
    Restored,
    HierarchyChanged,
    CompletionChanged,
}

/// Whether a delta carries the item, or says that it is gone.
#[derive(Clone, Copy, Debug, PartialEq, Eq, Structural)]
pub enum ChangeKind {
    Upsert,
    Tombstone,
}

/// The name of the event that tells of an operation.
pub open spec fn operation_event(operation: ItemOperation) -> Seq<char> {
    match operation {
        ItemOperation::Created => "item.created"@,
        ItemOperation::Updated => "item.updated"@,
        ItemOperation::Trashed => "item.trashed"@,
        ItemOperation::Restored => "item.restored"@,
        ItemOperation::HierarchyChanged => "item.hierarchy_changed"@,
        ItemOperation::CompletionChanged => "item.completion_changed"@,
    }
}

/// The name of the event that tells of an operation.
pub fn operation_event_name(operation: ItemOperation) -> (result: &'static str)
    ensures
        result@ == operation_event(operation),
{
    match operation {
        ItemOperation::Created => "item.created",
        ItemOperation::Updated => "item.updated",
        ItemOperation::Trashed => "item.trashed",
        ItemOperation::Restored => "item.restored",
        ItemOperation::HierarchyChanged => "item.hierarchy_changed",
        ItemOperation::CompletionChanged => "item.completion_changed",
    }
}

/// The stored name of a kind of change.
pub fn change_kind_name(kind: ChangeKind) -> (result: &'static str)
    ensures
        result@ == (match kind {
            ChangeKind::Upsert => "upsert"@,
            ChangeKind::Tombstone => "tombstone"@,
        }),
{
    match kind {
        ChangeKind::Upsert => "upsert",
        ChangeKind::Tombstone => "tombstone",
    }
}

/// What carrying out a command writes.
#[derive(Debug)]
pub struct ItemCommandPlan {
    /// The item as it is stored.
    pub item: Item,
    /// Whether the row of the item is new.
    pub inserts_row: bool,
    /// Whether the parent and the predecessors are stored again.
    pub writes_edges: bool,
    /// Whether the dependency graph is validated before the next command.
    pub validates_graph: bool,
    pub operation: ItemOperation,
    pub change_kind: ChangeKind,
    /// The revision that the command was made for.
    pub base_revision: Option<u64>,
    /// The parents whose execution state is derived anew, in increasing order.
    pub refreshed_parents: Vec<Uuid>,
}

/// An item that is being executed, and the session of it.
#[derive(Clone, Copy, Debug, PartialEq, Eq, Structural)]
pub struct ActiveExecution {
    pub session_id: Uuid,
    pub item_id: Uuid,
}

/// The first of two refusals.
pub open spec fn first_refusal(
    a: Option<ItemRepositoryError>,
    b: Option<ItemRepositoryError>,
) -> Option<ItemRepositoryError> {
    match a {
        Some(_) => a,
        None => b,
    }
}

/// The error of a check.
pub open spec fn error_of<T>(result: Result<T, ItemRepositoryError>) -> Option<
    ItemRepositoryError,
> {
    match result {
        Ok(_) => None,
        Err(error) => Some(error),
    }
}

/// A refusal, if the condition holds.
pub open spec fn refuse_if(condition: bool, error: ItemRepositoryError) -> Option<
    ItemRepositoryError,
> {
    if condition {
        Some(error)
    } else {
        None
    }
}

/// Why an item cannot be touched that is being executed.
pub open spec fn execution_refusal(active: Option<ActiveExecution>, id: Option<Uuid>) -> Option<
    ItemRepositoryError,
> {
    match (active, id) {
        (Some(execution), Some(item_id)) if execution.item_id == item_id => Some(
            ItemRepositoryError::ActiveExecutionConflict {
                item_id,
                session_id: execution.session_id,
            },
        ),
        _ => None,
    }
}

/// Whether a change takes an item away from execution: its status no longer allows
/// it, it has no work of its own any more, or it goes to the trash.
pub open spec fn closes_execution(policy: ItemPolicy, current: Item, next: Item) -> bool {
    ||| !policy.preventing@.contains(current.status) && policy.preventing@.contains(next.status)
    ||| current.is_executable && !policy.execution_allowed(
        next.kind,
        next.has_own_effort,
        next.deleted_at is Some,
        false,
    )
    ||| current.deleted_at is None && next.deleted_at is Some
}

/// Why a change cannot take an item away from execution.
pub open spec fn closing_refusal(
    policy: ItemPolicy,
    active: Option<ActiveExecution>,
    current: Item,
    next: Item,
) -> Option<ItemRepositoryError> {
    if closes_execution(policy, current, next) {
        execution_refusal(active, Some(current.id))
    } else {
        None
    }
}

/// Why an item is not the one that a command was made for.
pub open spec fn revision_refusal(item: Item, expected: u64) -> Option<ItemRepositoryError> {
    refuse_if(
        item.revision != expected,
        ItemRepositoryError::RevisionConflict { expected, actual: item.revision },
    )
}

/// Why an item with live children cannot be in a status of execution.
pub open spec fn leaf_refusal(
    policy: ItemPolicy,
    items: Map<Uuid, Item>,
    id: Uuid,
    next: Item,
) -> Option<ItemRepositoryError> {
    refuse_if(
        crate::items::hierarchy::has_live_child(items, id) && policy.executing@.contains(
            next.status,
        ),
        ItemRepositoryError::NonLeafExecutable,
    )
}

/// The check of a parent for an item that comes back from the trash.
pub open spec fn restored_parent_refusal(
    policy: ItemPolicy,
    items: Map<Uuid, Item>,
    id: Uuid,
    parent_id: Option<Uuid>,
) -> Option<ItemRepositoryError> {
    match error_of(crate::items::hierarchy::parent_check(policy, items, id, parent_id)) {
        Some(ItemRepositoryError::ParentNotFound(_)) => Some(ItemRepositoryError::DeletedParent),
        other => other,
    }
}

/// Why a new item is refused. `outcome` is what the rules for item content make of it.
pub open spec fn create_refusal(
    policy: ItemPolicy,
    items: Map<Uuid, Item>,
    active: Option<ActiveExecution>,
    outcome: Result<Item, ItemRepositoryError>,
    staged: bool,
) -> Option<ItemRepositoryError> {
    match outcome {
        Err(error) => Some(error),
        Ok(item) => first_refusal(
            error_of(crate::items::hierarchy::parent_check(policy, items, item.id, item.parent_id)),
            first_refusal(
                execution_refusal(active, item.parent_id),
                first_refusal(
                    error_of(
                        crate::items::hierarchy::blocker_check(items, item.blocked_by_item_id),
                    ),
                    refuse_if(
                        !staged && items.contains_key(item.id),
                        ItemRepositoryError::Duplicate(item.id),
                    ),
                ),
            ),
        ),
    }
}

/// Why the content of an item cannot be replaced.
pub open spec fn replace_refusal(
    policy: ItemPolicy,
    items: Map<Uuid, Item>,
    active: Option<ActiveExecution>,
    item_id: Uuid,
    expected_revision: u64,
    outcome: Result<Item, ItemRepositoryError>,
) -> Option<ItemRepositoryError> {
    if !crate::items::hierarchy::live(items, item_id) {
        Some(ItemRepositoryError::NotFound(item_id))
    } else {
        let current = items[item_id];
        first_refusal(
            revision_refusal(current, expected_revision),
            match outcome {
                Err(error) => Some(error),
                Ok(item) => first_refusal(
                    closing_refusal(policy, active, current, item),
                    first_refusal(
                        error_of(
                            crate::items::hierarchy::parent_check(
                                policy,
                                items,
                                item_id,
                                item.parent_id,
                            ),
                        ),
                        first_refusal(
                            if current.parent_id != item.parent_id {
                                execution_refusal(active, item.parent_id)
                            } else {
                                None
                            },
                            first_refusal(
                                error_of(
                                    crate::items::hierarchy::blocker_check(
                                        items,
                                        item.blocked_by_item_id,
                                    ),
                                ),
                                leaf_refusal(policy, items, item_id, item),
                            ),
                        ),
                    ),
                ),
            },
        )
    }
}

/// Why an item cannot go to the trash.
pub open spec fn trash_refusal(
    policy: ItemPolicy,
    items: Map<Uuid, Item>,
    active: Option<ActiveExecution>,
    item_id: Uuid,
    expected_revision: u64,
    outcome: Result<Item, ItemRepositoryError>,
) -> Option<ItemRepositoryError> {
    if !crate::items::hierarchy::live(items, item_id) {
        Some(ItemRepositoryError::NotFound(item_id))
    } else {
        let current = items[item_id];
        first_refusal(
            revision_refusal(current, expected_revision),
            first_refusal(
                refuse_if(
                    crate::items::hierarchy::has_live_child(items, item_id),
                    ItemRepositoryError::HasChildren,
                ),
                match outcome {
                    Err(error) => Some(error),
                    Ok(item) => closing_refusal(policy, active, current, item),
                },
            ),
        )
    }
}

/// Why an item cannot come back from the trash.
pub open spec fn restore_refusal(
    policy: ItemPolicy,
    items: Map<Uuid, Item>,
    active: Option<ActiveExecution>,
    item_id: Uuid,
    expected_revision: u64,
    outcome: Result<Item, ItemRepositoryError>,
) -> Option<ItemRepositoryError> {
    if !items.contains_key(item_id) || items[item_id].deleted_at is None {
        Some(ItemRepositoryError::NotFound(item_id))
    } else {
        let current = items[item_id];
        first_refusal(
            revision_refusal(current, expected_revision),
            first_refusal(
                restored_parent_refusal(policy, items, item_id, current.parent_id),
                first_refusal(
                    execution_refusal(active, current.parent_id),
                    match outcome {
                        Err(error) => Some(error),
                        Ok(item) => leaf_refusal(policy, items, item_id, item),
                    },
                ),
            ),
        )
    }
}

/// Why a former state of an item cannot be brought back.
pub open spec fn snapshot_refusal(
    policy: ItemPolicy,
    items: Map<Uuid, Item>,
    active: Option<ActiveExecution>,
    item_id: Uuid,
    expected_revision: u64,
    snapshot: Item,
) -> Option<ItemRepositoryError> {
    if !items.contains_key(item_id) {
        Some(ItemRepositoryError::NotFound(item_id))
    } else {
        let current = items[item_id];
        first_refusal(
            revision_refusal(current, expected_revision),
            first_refusal(
                refuse_if(
                    snapshot.id != item_id || snapshot.created_at != current.created_at,
                    ItemRepositoryError::Internal,
                ),
                first_refusal(
                    closing_refusal(policy, active, current, snapshot),
                    first_refusal(
                        if snapshot.deleted_at is None {
                            first_refusal(
                                error_of(
                                    crate::items::hierarchy::parent_check(
                                        policy,
                                        items,
                                        item_id,
                                        snapshot.parent_id,
                                    ),
                                ),
                                first_refusal(
                                    if current.deleted_at is Some || current.parent_id
                                        != snapshot.parent_id {
                                        execution_refusal(active, snapshot.parent_id)
                                    } else {
                                        None
                                    },
                                    first_refusal(
                                        error_of(
                                            crate::items::hierarchy::blocker_check(
                                                items,
                                                snapshot.blocked_by_item_id,
                                            ),
                                        ),
                                        leaf_refusal(policy, items, item_id, snapshot),
                                    ),
                                ),
                            )
                        } else {
                            None
                        },
                        refuse_if(current.revision == u64::MAX, ItemRepositoryError::Internal),
                    ),
                ),
            ),
        )
    }
}

/// Why a command is refused. `outcome` is what the rules for item content make of the
/// item that it is about: the new content, or why there is none.
pub open spec fn command_refusal(
    policy: ItemPolicy,
    items: Map<Uuid, Item>,
    active: Option<ActiveExecution>,
    command: TransactionalItemCommand,
    outcome: Result<Item, ItemRepositoryError>,
    mode: TransactionalGraphMode,
) -> Option<ItemRepositoryError> {
    match command {
        TransactionalItemCommand::Create(_) => create_refusal(
            policy,
            items,
            active,
            outcome,
            mode == TransactionalGraphMode::DeferredWithStagedCreates,
        ),
        TransactionalItemCommand::Replace { item_id, expected_revision, .. } => replace_refusal(
            policy,
            items,
            active,
            item_id,
            expected_revision,
            outcome,
        ),
        TransactionalItemCommand::Trash { item_id, expected_revision } => trash_refusal(
            policy,
            items,
            active,
            item_id,
            expected_revision,
            outcome,
        ),
        TransactionalItemCommand::Restore { item_id, expected_revision } => restore_refusal(
            policy,
            items,
            active,
            item_id,
            expected_revision,
            outcome,
        ),
        TransactionalItemCommand::RestoreSnapshot { item_id, expected_revision, snapshot } =>
        snapshot_refusal(policy, items, active, item_id, expected_revision, *snapshot),
    }
}

/// The parents among two, without those that are none.
pub open spec fn parents_of(a: Option<Uuid>, b: Option<Uuid>, id: Uuid) -> bool {
    a == Some(id) || b == Some(id)
}

/// Whether two states of an item stand in different places of the tree.
pub open spec fn moved(current: Item, next: Item) -> bool {
    current.parent_id != next.parent_id || current.sibling_order != next.sibling_order
}

/// Whether `plan` is what carrying out the command writes.
pub open spec fn plan_fits(
    items: Map<Uuid, Item>,
    command: TransactionalItemCommand,
    outcome: Result<Item, ItemRepositoryError>,
    now: Instant,
    mode: TransactionalGraphMode,
    plan: ItemCommandPlan,
) -> bool {
    &&& crate::ids::increasing(plan.refreshed_parents@)
    &&& match command {
        TransactionalItemCommand::Create(_) => {
            let item = outcome->Ok_0;
            &&& plan.item == item
            &&& plan.inserts_row == (mode != TransactionalGraphMode::DeferredWithStagedCreates)
            &&& plan.writes_edges
            &&& plan.validates_graph == (mode == TransactionalGraphMode::Immediate)
            &&& plan.operation == ItemOperation::Created
            &&& plan.change_kind == ChangeKind::Upsert
            &&& plan.base_revision is None
            &&& forall|id: Uuid|
                plan.refreshed_parents@.contains(id) <==> item.parent_id == Some(id)
        },
        TransactionalItemCommand::Replace { item_id, expected_revision, .. } => {
            let item = outcome->Ok_0;
            let current = items[item_id];
            &&& plan.item == item
            &&& !plan.inserts_row
            &&& plan.writes_edges
            &&& plan.validates_graph == (mode == TransactionalGraphMode::Immediate)
            &&& plan.operation == ItemOperation::Updated
            &&& plan.change_kind == ChangeKind::Upsert
            &&& plan.base_revision == Some(expected_revision)
            &&& forall|id: Uuid|
                plan.refreshed_parents@.contains(id) <==> moved(current, item) && parents_of(
                    current.parent_id,
                    item.parent_id,
                    id,
                )
        },
        TransactionalItemCommand::Trash { item_id, expected_revision } => {
            let item = outcome->Ok_0;
            &&& plan.item == item
            &&& !plan.inserts_row
            &&& !plan.writes_edges
            &&& !plan.validates_graph
            &&& plan.operation == ItemOperation::Trashed
            &&& plan.change_kind == ChangeKind::Tombstone
            &&& plan.base_revision == Some(expected_revision)
            &&& forall|id: Uuid|
                plan.refreshed_parents@.contains(id) <==> item.parent_id == Some(id)
        },
        TransactionalItemCommand::Restore { item_id, expected_revision } => {
            let item = outcome->Ok_0;
            &&& plan.item == item
            &&& !plan.inserts_row
            &&& !plan.writes_edges
            &&& plan.validates_graph == (mode == TransactionalGraphMode::Immediate)
            &&& plan.operation == ItemOperation::Restored
            &&& plan.change_kind == ChangeKind::Upsert
            &&& plan.base_revision == Some(expected_revision)
            &&& forall|id: Uuid|
                plan.refreshed_parents@.contains(id) <==> item.parent_id == Some(id)
        },
        TransactionalItemCommand::RestoreSnapshot { item_id, expected_revision, snapshot } => {
            let current = items[item_id];
            &&& plan.item == (Item {
                revision: (current.revision + 1) as u64,
                updated_at: now,
                ..*snapshot
            })
            &&& !plan.inserts_row
            &&& plan.writes_edges
            &&& plan.validates_graph == (mode == TransactionalGraphMode::Immediate)
            &&& plan.operation == (if snapshot.deleted_at is Some {
                ItemOperation::Trashed
            } else if current.deleted_at is Some {
                ItemOperation::Restored
            } else {
                ItemOperation::Updated
            })
            &&& plan.change_kind == (if snapshot.deleted_at is Some {
                ChangeKind::Tombstone
            } else {
                ChangeKind::Upsert
            })
            &&& plan.base_revision == Some(expected_revision)
            &&& forall|id: Uuid|
                plan.refreshed_parents@.contains(id) <==> (moved(current, *snapshot) || (
                current.deleted_at is Some) != (snapshot.deleted_at is Some)) && parents_of(
                    current.parent_id,
                    snapshot.parent_id,
                    id,
                )
        },
    }
}

/// Whether an item has the revision that a command was made for.
pub fn ensure_revision(item: &Item, expected: u64) -> (result: Result<(), ItemRepositoryError>)
    ensures
        result == match revision_refusal(*item, expected) {
            Some(error) => Err::<(), ItemRepositoryError>(error),
            None => Ok(()),
        },
{
    if item.revision == expected {
        Ok(())
    } else {
        Err(ItemRepositoryError::RevisionConflict { expected, actual: item.revision })
    }
}

/// Whether a parent may be given to an item, with regard to what is being executed.
pub fn reject_parent_for_active_execution(
    active: Option<ActiveExecution>,
    parent_id: Option<Uuid>,
) -> (result: Result<(), ItemRepositoryError>)
    ensures
        result == match execution_refusal(active, parent_id) {
            Some(error) => Err::<(), ItemRepositoryError>(error),
            None => Ok(()),
        },
{
    match (active, parent_id) {
        (Some(execution), Some(item_id)) => if execution.item_id == item_id {
            Err(
                ItemRepositoryError::ActiveExecutionConflict {
                    item_id,
                    session_id: execution.session_id,
                },
            )
        } else {
            Ok(())
        },
        _ => Ok(()),
    }
}

/// Whether an item may be taken away from execution, with regard to what is being
/// executed.
pub fn reject_closing_transition_for_active_execution(
    policy: &ItemPolicy,
    active: Option<ActiveExecution>,
    current: &Item,
    next: &Item,
) -> (result: Result<(), ItemRepositoryError>)
    ensures
        result == match closing_refusal(*policy, active, *current, *next) {
            Some(error) => Err::<(), ItemRepositoryError>(error),
            None => Ok(()),
        },
{
    let prevents: bool = (!policy.prevents_execution(current.status) && policy.prevents_execution(
        next.status,
    )) || (current.is_executable && !policy.execution_is_allowed(next, false));
    let trashed: bool = current.deleted_at.is_none() && next.deleted_at.is_some();
    if prevents || trashed {
        reject_parent_for_active_execution(active, Some(current.id))
    } else {
        Ok(())
    }
}

fn reject_executing_parent(
    policy: &ItemPolicy,
    items: &BTreeMap<Uuid, Item>,
    id: Uuid,
    next: &Item,
) -> (result: Result<(), ItemRepositoryError>)
    ensures
        result == match leaf_refusal(*policy, items@, id, *next) {
            Some(error) => Err::<(), ItemRepositoryError>(error),
            None => Ok(()),
        },
{
    if projected_has_active_children(id, items) && policy.is_executing_state(next.status) {
        Err(ItemRepositoryError::NonLeafExecutable)
    } else {
        Ok(())
    }
}

fn validate_restored_parent(
    policy: &ItemPolicy,
    items: &BTreeMap<Uuid, Item>,
    id: Uuid,
    parent_id: Option<Uuid>,
) -> (result: Result<(), ItemRepositoryError>)
    ensures
        result == match restored_parent_refusal(*policy, items@, id, parent_id) {
            Some(error) => Err::<(), ItemRepositoryError>(error),
            None => Ok(()),
        },
{
    match validate_projected_parent(policy, items, id, parent_id) {
        Ok(_) => Ok(()),
        Err(error) => match error {
            ItemRepositoryError::ParentNotFound(_) => Err(ItemRepositoryError::DeletedParent),
            other => Err(other),
        },
    }
}

/// The parents among two, in increasing order.
pub fn refreshed_parents(needed: bool, a: Option<Uuid>, b: Option<Uuid>) -> (result: Vec<Uuid>)
    ensures
        crate::ids::increasing(result@),
        forall|id: Uuid| result@.contains(id) <==> needed && parents_of(a, b, id),
{
    let mut ids: Vec<Uuid> = Vec::new();
    if needed {
        match a {
            Some(id) => {
                insert_id(&mut ids, id);
            },
            None => {},
        }
        match b {
            Some(id) => {
                insert_id(&mut ids, id);
            },
            None => {},
        }
    }
    ids
}

/// Why an item that is trashed on its own, not as part of a batch, cannot go to the
/// trash: an item that is being worked on is refused before its children are looked at.
pub open spec fn single_trash_refusal(
    items: Map<Uuid, Item>,
    active: Option<ActiveExecution>,
    item_id: Uuid,
    expected_revision: u64,
    outcome: Result<Item, ItemRepositoryError>,
) -> Option<ItemRepositoryError> {
    if !crate::items::hierarchy::live(items, item_id) {
        Some(ItemRepositoryError::NotFound(item_id))
    } else {
        first_refusal(
            revision_refusal(items[item_id], expected_revision),
            first_refusal(
                execution_refusal(active, Some(item_id)),
                first_refusal(
                    refuse_if(
                        crate::items::hierarchy::has_live_child(items, item_id),
                        ItemRepositoryError::HasChildren,
                    ),
                    error_of(outcome),
                ),
            ),
        )
    }
}

/// What trashing an item on its own writes, or why it is refused.
pub fn trash_single_item(
    items: &BTreeMap<Uuid, Item>,
    active: Option<ActiveExecution>,
    item_id: Uuid,
    expected_revision: u64,
    outcome: Result<Item, ItemRepositoryError>,
    now: Instant,
) -> (result: Result<ItemCommandPlan, ItemRepositoryError>)
    ensures
        match result {
            Ok(plan) => single_trash_refusal(
                items@,
                active,
                item_id,
                expected_revision,
                outcome,
            ) is None && plan_fits(
                items@,
                TransactionalItemCommand::Trash { item_id, expected_revision },
                outcome,
                now,
                TransactionalGraphMode::Immediate,
                plan,
            ),
            Err(error) => single_trash_refusal(
                items@,
                active,
                item_id,
                expected_revision,
                outcome,
            ) == Some(error),
        },
{
    let current: &Item = match items.get(&item_id) {
        Some(item) => item,
        None => {
            return Err(ItemRepositoryError::NotFound(item_id));
        },
    };
    if current.deleted_at.is_some() {
        return Err(ItemRepositoryError::NotFound(item_id));
    }
    ensure_revision(current, expected_revision)?;
    reject_parent_for_active_execution(active, Some(item_id))?;
    if projected_has_active_children(item_id, items) {
        return Err(ItemRepositoryError::HasChildren);
    }
    let item: Item = match outcome {
        Ok(item) => item,
        Err(error) => {
            return Err(error);
        },
    };
    let parents: Vec<Uuid> = refreshed_parents(true, item.parent_id, None);
    Ok(
        ItemCommandPlan {
            item,
            inserts_row: false,
            writes_edges: false,
            validates_graph: false,
            operation: ItemOperation::Trashed,
            change_kind: ChangeKind::Tombstone,
            base_revision: Some(expected_revision),
            refreshed_parents: parents,
        },
    )
}

/// What carrying out a command writes, or why it is refused.
///
/// `items` are all items of the workspace, those in the trash too. `outcome` is what
/// the rules for item content make of the item that the command is about: the new
/// content, or why there is none. It does not matter for bringing back a former state.
pub fn apply_item_command(
    policy: &ItemPolicy,
    items: &BTreeMap<Uuid, Item>,
    active: Option<ActiveExecution>,
    command: TransactionalItemCommand,
    outcome: Result<Item, ItemRepositoryError>,
    now: Instant,
    mode: TransactionalGraphMode,
) -> (result: Result<ItemCommandPlan, ItemRepositoryError>)
    ensures
        match result {
            Ok(plan) => command_refusal(*policy, items@, active, command, outcome, mode) is None
                && plan_fits(items@, command, outcome, now, mode, plan),
            Err(error) => command_refusal(*policy, items@, active, command, outcome, mode) == Some(
                error,
            ),
        },
{
    match command {
        TransactionalItemCommand::Create(_) => {
            let item: Item = match outcome {
                Ok(item) => item,
                Err(error) => {
                    return Err(error);
                },
            };
            validate_projected_parent(policy, items, item.id, item.parent_id)?;
            reject_parent_for_active_execution(active, item.parent_id)?;
            validate_projected_blocker(items, item.blocked_by_item_id)?;
            let staged: bool = mode.uses_staged_creates();
            if !staged && items.contains_key(&item.id) {
                return Err(ItemRepositoryError::Duplicate(item.id));
            }
            let parents: Vec<Uuid> = refreshed_parents(true, item.parent_id, None);
            Ok(
                ItemCommandPlan {
                    item,
                    inserts_row: !staged,
                    writes_edges: true,
                    validates_graph: mode.validates_immediately(),
                    operation: ItemOperation::Created,
                    change_kind: ChangeKind::Upsert,
                    base_revision: None,
                    refreshed_parents: parents,
                },
            )
        },
        TransactionalItemCommand::Replace { item_id, expected_revision, .. } => {
            let current: &Item = match items.get(&item_id) {
                Some(item) => item,
                None => {
                    return Err(ItemRepositoryError::NotFound(item_id));
                },
            };
            if current.deleted_at.is_some() {
                return Err(ItemRepositoryError::NotFound(item_id));
            }
            ensure_revision(current, expected_revision)?;
            let item: Item = match outcome {
                Ok(item) => item,
                Err(error) => {
                    return Err(error);
                },
            };
            reject_closing_transition_for_active_execution(policy, active, current, &item)?;
            validate_projected_parent(policy, items, item_id, item.parent_id)?;
            if current.parent_id != item.parent_id {
                reject_parent_for_active_execution(active, item.parent_id)?;
            }
            validate_projected_blocker(items, item.blocked_by_item_id)?;
            reject_executing_parent(policy, items, item_id, &item)?;
            let parents: Vec<Uuid> = refreshed_parents(
                current.parent_id != item.parent_id || current.sibling_order != item.sibling_order,
                current.parent_id,
                item.parent_id,
            );
            Ok(
                ItemCommandPlan {
                    item,
                    inserts_row: false,
                    writes_edges: true,
                    validates_graph: mode.validates_immediately(),
                    operation: ItemOperation::Updated,
                    change_kind: ChangeKind::Upsert,
                    base_revision: Some(expected_revision),
                    refreshed_parents: parents,
                },
            )
        },
        TransactionalItemCommand::Trash { item_id, expected_revision } => {
            let current: &Item = match items.get(&item_id) {
                Some(item) => item,
                None => {
                    return Err(ItemRepositoryError::NotFound(item_id));
                },
            };
            if current.deleted_at.is_some() {
                return Err(ItemRepositoryError::NotFound(item_id));
            }
            ensure_revision(current, expected_revision)?;
            if projected_has_active_children(item_id, items) {
                return Err(ItemRepositoryError::HasChildren);
            }
            let item: Item = match outcome {
                Ok(item) => item,
                Err(error) => {
                    return Err(error);
                },
            };
            reject_closing_transition_for_active_execution(policy, active, current, &item)?;
            let parents: Vec<Uuid> = refreshed_parents(true, item.parent_id, None);
            Ok(
                ItemCommandPlan {
                    item,
                    inserts_row: false,
                    writes_edges: false,
                    validates_graph: false,
                    operation: ItemOperation::Trashed,
                    change_kind: ChangeKind::Tombstone,
                    base_revision: Some(expected_revision),
                    refreshed_parents: parents,
                },
            )
        },
        TransactionalItemCommand::Restore { item_id, expected_revision } => {
            let current: &Item = match items.get(&item_id) {
                Some(item) => item,
                None => {
                    return Err(ItemRepositoryError::NotFound(item_id));
                },
            };
            if current.deleted_at.is_none() {
                return Err(ItemRepositoryError::NotFound(item_id));
            }
            ensure_revision(current, expected_revision)?;
            validate_restored_parent(policy, items, item_id, current.parent_id)?;
            reject_parent_for_active_execution(active, current.parent_id)?;
            let item: Item = match outcome {
                Ok(item) => item,
                Err(error) => {
                    return Err(error);
                },
            };
            reject_executing_parent(policy, items, item_id, &item)?;
            let parents: Vec<Uuid> = refreshed_parents(true, item.parent_id, None);
            Ok(
                ItemCommandPlan {
                    item,
                    inserts_row: false,
                    writes_edges: false,
                    validates_graph: mode.validates_immediately(),
                    operation: ItemOperation::Restored,
                    change_kind: ChangeKind::Upsert,
                    base_revision: Some(expected_revision),
                    refreshed_parents: parents,
                },
            )
        },
        TransactionalItemCommand::RestoreSnapshot { item_id, expected_revision, snapshot } => {
            restore_item_snapshot(
                policy,
                items,
                active,
                item_id,
                expected_revision,
                *snapshot,
                now,
                mode,
            )
        },
    }
}

/// What bringing back a former state of an item writes, or why it is refused.
pub fn restore_item_snapshot(
    policy: &ItemPolicy,
    items: &BTreeMap<Uuid, Item>,
    active: Option<ActiveExecution>,
    item_id: Uuid,
    expected_revision: u64,
    snapshot: Item,
    now: Instant,
    mode: TransactionalGraphMode,
) -> (result: Result<ItemCommandPlan, ItemRepositoryError>)
    ensures
        match result {
            Ok(plan) => snapshot_refusal(
                *policy,
                items@,
                active,
                item_id,
                expected_revision,
                snapshot,
            ) is None && forall|outcome: Result<Item, ItemRepositoryError>|
                plan_fits(
                    items@,
                    TransactionalItemCommand::RestoreSnapshot {
                        item_id,
                        expected_revision,
                        snapshot: Box::new(snapshot),
                    },
                    outcome,
                    now,
                    mode,
                    plan,
                ),
            Err(error) => snapshot_refusal(
                *policy,
                items@,
                active,
                item_id,
                expected_revision,
                snapshot,
            ) == Some(error),
        },
{
    let current: &Item = match items.get(&item_id) {
        Some(item) => item,
        None => {
            return Err(ItemRepositoryError::NotFound(item_id));
        },
    };
    ensure_revision(current, expected_revision)?;
    if snapshot.id != item_id || snapshot.created_at != current.created_at {
        return Err(ItemRepositoryError::Internal);
    }
    reject_closing_transition_for_active_execution(policy, active, current, &snapshot)?;
    if snapshot.deleted_at.is_none() {
        validate_projected_parent(policy, items, item_id, snapshot.parent_id)?;
        if current.deleted_at.is_some() || current.parent_id != snapshot.parent_id {
            reject_parent_for_active_execution(active, snapshot.parent_id)?;
        }
        validate_projected_blocker(items, snapshot.blocked_by_item_id)?;
        reject_executing_parent(policy, items, item_id, &snapshot)?;
    }
    if current.revision == u64::MAX {
        return Err(ItemRepositoryError::Internal);
    }
    let was_deleted: bool = current.deleted_at.is_some();
    let is_deleted: bool = snapshot.deleted_at.is_some();
    let parents: Vec<Uuid> = refreshed_parents(
        current.parent_id != snapshot.parent_id || current.sibling_order != snapshot.sibling_order
            || was_deleted != is_deleted,
        current.parent_id,
        snapshot.parent_id,
    );
    let mut restored: Item = snapshot;
    restored.revision = current.revision + 1;
    restored.updated_at = now;
    Ok(
        ItemCommandPlan {
            item: restored,
            inserts_row: false,
            writes_edges: true,
            validates_graph: mode.validates_immediately(),
            operation: if is_deleted {
                ItemOperation::Trashed
            } else if was_deleted {
                ItemOperation::Restored
            } else {
                ItemOperation::Updated
            },
            change_kind: if is_deleted {
                ChangeKind::Tombstone
            } else {
                ChangeKind::Upsert
            },
            base_revision: Some(expected_revision),
            refreshed_parents: parents,
        },
    )
}

/// Carrying out a command that creates, replaces or brings back a live item keeps
/// the tree free of cycles.
pub proof fn accepted_command_keeps_tree_acyclic(
    policy: ItemPolicy,
    items: Map<Uuid, Item>,
    active: Option<ActiveExecution>,
    command: TransactionalItemCommand,
    outcome: Result<Item, ItemRepositoryError>,
    now: Instant,
    mode: TransactionalGraphMode,
    plan: ItemCommandPlan,
)
    requires
        crate::items::hierarchy::acyclic(items),
        command_refusal(policy, items, active, command, outcome, mode) is None,
        plan_fits(items, command, outcome, now, mode, plan),
        match command {
            TransactionalItemCommand::Create(_) => true,
            TransactionalItemCommand::Replace { item_id, .. } => plan.item.id == item_id,
            TransactionalItemCommand::RestoreSnapshot { snapshot, .. } => snapshot.deleted_at
                is None,
            _ => false,
        },
    ensures
        crate::items::hierarchy::acyclic(items.insert(plan.item.id, plan.item)),
{
    crate::items::hierarchy::accepted_parent_keeps_tree_acyclic(
        policy,
        items,
        plan.item.id,
        plan.item,
    );
}

/// A former state comes back whole: apart from the revision and the time of the
/// change, every field has the value that it had, and the revision moves on by one.
pub proof fn snapshot_comes_back_whole(
    items: Map<Uuid, Item>,
    item_id: Uuid,
    expected_revision: u64,
    snapshot: Item,
    outcome: Result<Item, ItemRepositoryError>,
    now: Instant,
    mode: TransactionalGraphMode,
    plan: ItemCommandPlan,
)
    requires
        items.contains_key(item_id),
        items[item_id].revision < u64::MAX,
        plan_fits(
            items,
            TransactionalItemCommand::RestoreSnapshot {
                item_id,
                expected_revision,
                snapshot: Box::new(snapshot),
            },
            outcome,
            now,
            mode,
            plan,
        ),
    ensures
        plan.item.revision == items[item_id].revision + 1,
        plan.item.updated_at == now,
        (Item { revision: snapshot.revision, updated_at: snapshot.updated_at, ..plan.item })
            == snapshot,
{
}

} // verus!
