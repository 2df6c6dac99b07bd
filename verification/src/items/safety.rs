//! What every command on items keeps, when it is accepted, and what a refusal tells.
use vstd::prelude::*;

use crate::items::commands::{
    ActiveExecution, ChangeKind, ItemCommandPlan, ItemOperation, TransactionalGraphMode,
    TransactionalItemCommand,
};
use crate::items::model::{Item, ItemPolicy, ItemRepositoryError};
use crate::time::{Instant, Uuid};

verus! {

/// Whether every item stands under its own identifier.
pub open spec fn keyed_items(items: Map<Uuid, Item>) -> bool {
    forall|id: Uuid| #[trigger] items.contains_key(id) ==> items[id].id == id
}

/// Whether no item in a status of execution has a child outside the trash.
pub open spec fn only_leaves_execute(policy: ItemPolicy, items: Map<Uuid, Item>) -> bool {
    forall|id: Uuid, child: Uuid|
        #![trigger items.contains_key(id), items.contains_key(child)]
        items.contains_key(id) && items[id].deleted_at is None && policy.executing@.contains(
            items[id].status,
        ) && items.contains_key(child) && items[child].deleted_at is None
            ==> items[child].parent_id != Some(id)
}

/// Whether every item outside the trash is under a parent outside the trash, or under none.
pub open spec fn parents_are_live(items: Map<Uuid, Item>) -> bool {
    forall|id: Uuid| #[trigger]
        items.contains_key(id) && items[id].deleted_at is None && items[id].parent_id is Some ==> {
            &&& items.contains_key(items[id].parent_id->0)
            &&& items[items[id].parent_id->0].deleted_at is None
        }
}

/// Whether what the rules for item content make of an item belongs to the command: it is the
/// item of the command, a trashed one is in the trash and any other is not, and an item that
/// goes there or comes back keeps its parent.
pub open spec fn content_belongs(
    items: Map<Uuid, Item>,
    command: TransactionalItemCommand,
    outcome: Result<Item, ItemRepositoryError>,
) -> bool {
    match (command, outcome) {
        (TransactionalItemCommand::Create(new), Ok(item)) => item.id == new.id && item.deleted_at
            is None,
        (TransactionalItemCommand::Replace { item_id, .. }, Ok(item)) => item.id == item_id
            && item.deleted_at is None,
        (TransactionalItemCommand::Trash { item_id, .. }, Ok(item)) => item.id == item_id
            && item.deleted_at is Some && item.parent_id == items[item_id].parent_id,
        (TransactionalItemCommand::Restore { item_id, .. }, Ok(item)) => item.id == item_id
            && item.deleted_at is None && item.parent_id == items[item_id].parent_id,
        _ => true,
    }
}

/// Whether no item outside the trash has this parent.
pub open spec fn childless(items: Map<Uuid, Item>, id: Uuid) -> bool {
    forall|child: Uuid| #[trigger]
        items.contains_key(child) && items[child].deleted_at is None ==> items[child].parent_id
            != Some(id)
}

/// Whether an item that a former state puts into the trash has no children that are outside
/// it: a state in the trash comes back only for items that nothing was put under.
pub open spec fn nothing_beneath(
    items: Map<Uuid, Item>,
    command: TransactionalItemCommand,
) -> bool {
    match command {
        TransactionalItemCommand::RestoreSnapshot { item_id, snapshot, .. } =>
        snapshot.deleted_at is Some ==> childless(items, item_id),
        _ => true,
    }
}

/// An accepted command never leaves an item in a status of execution above an item outside
/// the trash, and never an item outside the trash under one in it. Nothing is under a new item
/// before it is there.
pub proof fn accepted_command_keeps_the_tree_in_order(
    policy: ItemPolicy,
    items: Map<Uuid, Item>,
    active: Option<ActiveExecution>,
    command: TransactionalItemCommand,
    outcome: Result<Item, ItemRepositoryError>,
    now: Instant,
    mode: TransactionalGraphMode,
    plan: ItemCommandPlan,
)
    requires
        keyed_items(items),
        content_belongs(items, command, outcome),
        command is Create ==> childless(items, plan.item.id),
        crate::items::commands::command_refusal(policy, items, active, command, outcome, mode)
            is None,
        crate::items::commands::plan_fits(items, command, outcome, now, mode, plan),
    ensures
        keyed_items(items.insert(plan.item.id, plan.item)),
        only_leaves_execute(policy, items) ==> only_leaves_execute(
            policy,
            items.insert(plan.item.id, plan.item),
        ),
        parents_are_live(items) && nothing_beneath(items, command) ==> parents_are_live(
            items.insert(plan.item.id, plan.item),
        ),
{
    let after = items.insert(plan.item.id, plan.item);
    let own = plan.item.id;
    if only_leaves_execute(policy, items) {
        assert forall|id: Uuid, child: Uuid|
            #![trigger after.contains_key(id), after.contains_key(child)]
            after.contains_key(id) && after[id].deleted_at is None && policy.executing@.contains(
                after[id].status,
            ) && after.contains_key(child) && after[child].deleted_at is None implies
            after[child].parent_id != Some(id) by {
            if after[child].parent_id == Some(id) {
                if id != own && child != own {
                    assert(items.contains_key(id) && items.contains_key(child));
                } else if id == own && child != own {
                    assert(items.contains_key(child));
                    assert(crate::items::hierarchy::live(items, child));
                    assert(crate::items::hierarchy::has_live_child(items, own));
                }
            }
        }
    }
    if parents_are_live(items) && nothing_beneath(items, command) {
        assert forall|id: Uuid| #[trigger]
            after.contains_key(id) && after[id].deleted_at is None && after[id].parent_id
                is Some implies {
            &&& after.contains_key(after[id].parent_id->0)
            &&& after[after[id].parent_id->0].deleted_at is None
        } by {
            let parent = after[id].parent_id->0;
            if id != own {
                assert(items.contains_key(id));
                if parent == own && plan.item.deleted_at is Some {
                    assert(crate::items::hierarchy::live(items, id));
                    assert(crate::items::hierarchy::has_live_child(items, own));
                }
            }
        }
    }
}

/// An item that is being worked on stays as it is needed for the work: an accepted command
/// neither puts it into the trash, nor into a status in which work cannot start, nor another
/// item under it.
pub proof fn accepted_command_leaves_running_work_alone(
    policy: ItemPolicy,
    items: Map<Uuid, Item>,
    execution: ActiveExecution,
    command: TransactionalItemCommand,
    outcome: Result<Item, ItemRepositoryError>,
    now: Instant,
    mode: TransactionalGraphMode,
    plan: ItemCommandPlan,
    child: Uuid,
)
    requires
        keyed_items(items),
        content_belongs(items, command, outcome),
        command is Create ==> !items.contains_key(plan.item.id),
        items.contains_key(execution.item_id),
        items[execution.item_id].deleted_at is None,
        crate::items::commands::command_refusal(
            policy,
            items,
            Some(execution),
            command,
            outcome,
            mode,
        ) is None,
        crate::items::commands::plan_fits(items, command, outcome, now, mode, plan),
    ensures
        ({
            let after = items.insert(plan.item.id, plan.item);
            let id = execution.item_id;
            &&& after.contains_key(id) && after[id].deleted_at is None
            &&& !policy.preventing@.contains(items[id].status) ==> !policy.preventing@.contains(
                after[id].status,
            )
            &&& items[id].is_executable && plan.item.id == id ==> policy.executable@.contains(
                (after[id].kind, after[id].has_own_effort),
            )
            &&& after.contains_key(child) && after[child].deleted_at is None
                && after[child].parent_id == Some(id) ==> items.contains_key(child)
                && items[child].deleted_at is None && items[child].parent_id == Some(id)
        }),
{
}

/// Whether `parent` may be the parent of an item: it is another item outside the trash, it is
/// not being worked on, and it does not stand below the item.
pub open spec fn parent_fits(
    policy: ItemPolicy,
    items: Map<Uuid, Item>,
    id: Uuid,
    parent: Option<Uuid>,
) -> bool {
    parent matches Some(above) ==> {
        &&& above != id
        &&& items.contains_key(above)
        &&& items[above].deleted_at is None
        &&& !policy.executing@.contains(items[above].status)
        &&& !crate::items::hierarchy::climbs_to(items, above, id)
    }
}

/// Whether the item that another one waits for is there.
pub open spec fn blocker_there(items: Map<Uuid, Item>, blocker: Option<Uuid>) -> bool {
    blocker matches Some(id) ==> items.contains_key(id)
}

/// Whether a change takes the item away from work that is being done on it.
pub open spec fn takes_work_away(
    policy: ItemPolicy,
    active: Option<ActiveExecution>,
    before: Item,
    after: Item,
) -> bool {
    &&& active is Some && active->0.item_id == before.id
    &&& {
        ||| before.deleted_at is None && after.deleted_at is Some
        ||| !policy.preventing@.contains(before.status) && policy.preventing@.contains(
            after.status,
        )
        ||| before.is_executable && (after.deleted_at is Some || !policy.executable@.contains(
            (after.kind, after.has_own_effort),
        ))
    }
}

/// Whether an item is being worked on.
pub open spec fn being_worked_on(active: Option<ActiveExecution>, id: Option<Uuid>) -> bool {
    active is Some && id == Some(active->0.item_id)
}

/// A command is accepted exactly if it was made for the item as it is, the rules for item
/// content allow it, its item fits into the tree, and no running work is in its way.
pub proof fn command_is_accepted_exactly_if_it_fits(
    policy: ItemPolicy,
    items: Map<Uuid, Item>,
    active: Option<ActiveExecution>,
    command: TransactionalItemCommand,
    outcome: Result<Item, ItemRepositoryError>,
    mode: TransactionalGraphMode,
)
    ensures
        (crate::items::commands::command_refusal(policy, items, active, command, outcome, mode)
            is None) <==> match command {
            TransactionalItemCommand::Create(_) => {
                &&& outcome is Ok
                &&& parent_fits(policy, items, outcome->Ok_0.id, outcome->Ok_0.parent_id)
                &&& !being_worked_on(active, outcome->Ok_0.parent_id)
                &&& blocker_there(items, outcome->Ok_0.blocked_by_item_id)
                &&& mode == TransactionalGraphMode::DeferredWithStagedCreates
                    || !items.contains_key(outcome->Ok_0.id)
            },
            TransactionalItemCommand::Replace { item_id, expected_revision, .. } => {
                let next = outcome->Ok_0;
                &&& items.contains_key(item_id)
                &&& items[item_id].deleted_at is None
                &&& items[item_id].revision == expected_revision
                &&& outcome is Ok
                &&& !takes_work_away(policy, active, items[item_id], next)
                &&& parent_fits(policy, items, item_id, next.parent_id)
                &&& items[item_id].parent_id == next.parent_id || !being_worked_on(
                    active,
                    next.parent_id,
                )
                &&& blocker_there(items, next.blocked_by_item_id)
                &&& policy.executing@.contains(next.status) ==> childless(items, item_id)
            },
            TransactionalItemCommand::Trash { item_id, expected_revision } => {
                &&& items.contains_key(item_id)
                &&& items[item_id].deleted_at is None
                &&& items[item_id].revision == expected_revision
                &&& childless(items, item_id)
                &&& outcome is Ok
                &&& !takes_work_away(policy, active, items[item_id], outcome->Ok_0)
            },
            TransactionalItemCommand::Restore { item_id, expected_revision } => {
                &&& items.contains_key(item_id)
                &&& items[item_id].deleted_at is Some
                &&& items[item_id].revision == expected_revision
                &&& parent_fits(policy, items, item_id, items[item_id].parent_id)
                &&& !being_worked_on(active, items[item_id].parent_id)
                &&& outcome is Ok
                &&& policy.executing@.contains(outcome->Ok_0.status) ==> childless(items, item_id)
            },
            TransactionalItemCommand::RestoreSnapshot { item_id, expected_revision, snapshot } => {
                let current = items[item_id];
                &&& items.contains_key(item_id)
                &&& current.revision == expected_revision
                &&& current.revision < u64::MAX
                &&& snapshot.id == item_id
                &&& snapshot.created_at == current.created_at
                &&& !takes_work_away(policy, active, current, *snapshot)
                &&& snapshot.deleted_at is None ==> {
                    &&& parent_fits(policy, items, item_id, snapshot.parent_id)
                    &&& (current.deleted_at is None && current.parent_id == snapshot.parent_id)
                        || !being_worked_on(active, snapshot.parent_id)
                    &&& blocker_there(items, snapshot.blocked_by_item_id)
                    &&& policy.executing@.contains(snapshot.status) ==> childless(items, item_id)
                }
            },
        },
{
    let id = match command {
        TransactionalItemCommand::Create(_) => outcome->Ok_0.id,
        TransactionalItemCommand::Replace { item_id, .. } => item_id,
        TransactionalItemCommand::Trash { item_id, .. } => item_id,
        TransactionalItemCommand::Restore { item_id, .. } => item_id,
        TransactionalItemCommand::RestoreSnapshot { item_id, .. } => item_id,
    };
    lemma_childless(items, id);
}

proof fn lemma_childless(items: Map<Uuid, Item>, id: Uuid)
    ensures
        childless(items, id) == !crate::items::hierarchy::has_live_child(items, id),
{
    if crate::items::hierarchy::has_live_child(items, id) {
        let child = choose|child: Uuid| #[trigger]
            crate::items::hierarchy::live(items, child) && items[child].parent_id == Some(id);
        assert(items.contains_key(child));
    } else {
        assert forall|child: Uuid| #[trigger]
            items.contains_key(child) && items[child].deleted_at is None implies
            items[child].parent_id != Some(id) by {
            assert(crate::items::hierarchy::live(items, child));
        }
    }
}

/// The item that a command is about.
pub open spec fn own_item(
    command: TransactionalItemCommand,
    outcome: Result<Item, ItemRepositoryError>,
) -> Uuid {
    match command {
        TransactionalItemCommand::Create(_) => outcome->Ok_0.id,
        TransactionalItemCommand::Replace { item_id, .. } => item_id,
        TransactionalItemCommand::Trash { item_id, .. } => item_id,
        TransactionalItemCommand::Restore { item_id, .. } => item_id,
        TransactionalItemCommand::RestoreSnapshot { item_id, .. } => item_id,
    }
}

/// The parent that a command gives its item.
pub open spec fn own_parent(
    items: Map<Uuid, Item>,
    command: TransactionalItemCommand,
    outcome: Result<Item, ItemRepositoryError>,
) -> Option<Uuid> {
    match command {
        TransactionalItemCommand::Create(_) => outcome->Ok_0.parent_id,
        TransactionalItemCommand::Replace { .. } => outcome->Ok_0.parent_id,
        TransactionalItemCommand::Trash { item_id, .. } => items[item_id].parent_id,
        TransactionalItemCommand::Restore { item_id, .. } => items[item_id].parent_id,
        TransactionalItemCommand::RestoreSnapshot { snapshot, .. } => snapshot.parent_id,
    }
}

/// A refusal tells what is the case: where the rules for item content allow a command, the
/// error that it is refused with names what is in its way.
pub proof fn refusal_of_a_command_is_true(
    policy: ItemPolicy,
    items: Map<Uuid, Item>,
    active: Option<ActiveExecution>,
    command: TransactionalItemCommand,
    outcome: Result<Item, ItemRepositoryError>,
    mode: TransactionalGraphMode,
    error: ItemRepositoryError,
)
    requires
        outcome is Ok,
        crate::items::commands::command_refusal(policy, items, active, command, outcome, mode)
            == Some(error),
    ensures
        ({
            let id = own_item(command, outcome);
            let above = own_parent(items, command, outcome);
            match error {
                ItemRepositoryError::NotFound(which) => which == id && (!items.contains_key(id)
                    || (items[id].deleted_at is None) == (command is Restore)),
                ItemRepositoryError::Duplicate(which) => which == id && items.contains_key(id)
                    && command is Create,
                ItemRepositoryError::RevisionConflict { expected, actual } => actual
                    == items[id].revision && expected != actual,
                ItemRepositoryError::SelfParent => above == Some(id),
                ItemRepositoryError::ParentNotFound(which) => above == Some(which)
                    && !(items.contains_key(which) && items[which].deleted_at is None)
                    && !(command is Restore),
                ItemRepositoryError::DeletedParent => command is Restore && above is Some
                    && !(items.contains_key(above->0) && items[above->0].deleted_at is None),
                ItemRepositoryError::InvalidParentState => above is Some
                    && policy.executing@.contains(items[above->0].status),
                ItemRepositoryError::HierarchyCycle => above is Some
                    && crate::items::hierarchy::climbs_to(items, above->0, id),
                ItemRepositoryError::HasChildren => command is Trash && !childless(items, id),
                ItemRepositoryError::NonLeafExecutable => !childless(items, id)
                    && !(command is Trash) && !(command is Create),
                ItemRepositoryError::BlockedByItemNotFound(which) => !items.contains_key(which),
                ItemRepositoryError::ActiveExecutionConflict { item_id, session_id } => active
                    == Some(ActiveExecution { session_id, item_id }) && (above == Some(item_id)
                    || items[id].id == item_id),
                ItemRepositoryError::Internal => command is RestoreSnapshot,
                _ => false,
            }
        }),
{
    lemma_childless(items, own_item(command, outcome));
}

/// What a command writes is told as what it is: an item that ends in the trash as one that is
/// gone, any other as one that is there, for the revision that the command was made for.
pub proof fn change_is_told_as_what_it_is(
    policy: ItemPolicy,
    items: Map<Uuid, Item>,
    active: Option<ActiveExecution>,
    command: TransactionalItemCommand,
    outcome: Result<Item, ItemRepositoryError>,
    now: Instant,
    mode: TransactionalGraphMode,
    plan: ItemCommandPlan,
)
    requires
        content_belongs(items, command, outcome),
        crate::items::commands::command_refusal(policy, items, active, command, outcome, mode)
            is None,
        crate::items::commands::plan_fits(items, command, outcome, now, mode, plan),
    ensures
        (plan.change_kind == ChangeKind::Tombstone) == (plan.item.deleted_at is Some),
        (plan.operation == ItemOperation::Trashed) == (plan.item.deleted_at is Some),
        (plan.operation == ItemOperation::Created) == (command is Create),
        (plan.operation == ItemOperation::Restored) ==> items[plan.item.id].deleted_at is Some
            && plan.item.deleted_at is None,
        (plan.operation == ItemOperation::Updated) ==> items[plan.item.id].deleted_at is None
            && plan.item.deleted_at is None,
        plan.base_revision is None == (command is Create),
        plan.base_revision is Some ==> items.contains_key(plan.item.id) && plan.base_revision
            == Some(items[plan.item.id].revision),
        plan.inserts_row ==> !items.contains_key(plan.item.id),
        command is Create && !plan.inserts_row ==> mode
            == TransactionalGraphMode::DeferredWithStagedCreates,
        !(command is RestoreSnapshot) ==> Ok::<Item, ItemRepositoryError>(plan.item) == outcome,
        plan.item.id == own_item(command, outcome),
        plan.validates_graph ==> mode == TransactionalGraphMode::Immediate,
        mode == TransactionalGraphMode::Immediate && plan.item.deleted_at is None
            ==> plan.validates_graph,
        plan.writes_edges <==> command is Create || command is Replace || command
            is RestoreSnapshot,
        plan.validates_graph <==> mode == TransactionalGraphMode::Immediate && !(command is Trash),
        plan.inserts_row <==> command is Create && mode
            != TransactionalGraphMode::DeferredWithStagedCreates,
        command is RestoreSnapshot ==> plan.item == (Item {
            revision: plan.item.revision,
            updated_at: now,
            ..*command->snapshot
        }) && plan.item.revision == items[plan.item.id].revision + 1,
{
}

/// An item that moves within its parent, or to another one, has the parents between which it
/// moves refreshed, and an item that goes to the trash or comes back has its parent refreshed.
pub proof fn moves_refresh_the_parents(
    policy: ItemPolicy,
    items: Map<Uuid, Item>,
    active: Option<ActiveExecution>,
    command: TransactionalItemCommand,
    outcome: Result<Item, ItemRepositoryError>,
    now: Instant,
    mode: TransactionalGraphMode,
    plan: ItemCommandPlan,
    id: Uuid,
)
    requires
        content_belongs(items, command, outcome),
        crate::items::commands::command_refusal(policy, items, active, command, outcome, mode)
            is None,
        crate::items::commands::plan_fits(items, command, outcome, now, mode, plan),
    ensures
        ({
            let before = items[plan.item.id];
            let known = !(command is Create);
            plan.refreshed_parents@.contains(id) <==> {
                ||| !known && plan.item.parent_id == Some(id)
                ||| known && (before.parent_id == Some(id) || plan.item.parent_id == Some(id)) && (
                before.parent_id != plan.item.parent_id || before.sibling_order
                    != plan.item.sibling_order || (before.deleted_at is Some) != (
                plan.item.deleted_at is Some))
            }
        }),
        forall|i: int, j: int|
            0 <= i < j < plan.refreshed_parents@.len() ==> #[trigger] plan.refreshed_parents@[i]
                < #[trigger] plan.refreshed_parents@[j],
{
}

/// A parent is refreshed whenever its children outside the trash have changed: an item
/// that gains its first child or loses its last one is among those whose execution state is
/// derived anew.
pub proof fn parents_that_gain_or_lose_children_are_refreshed(
    policy: ItemPolicy,
    items: Map<Uuid, Item>,
    active: Option<ActiveExecution>,
    command: TransactionalItemCommand,
    outcome: Result<Item, ItemRepositoryError>,
    now: Instant,
    mode: TransactionalGraphMode,
    plan: ItemCommandPlan,
    id: Uuid,
)
    requires
        keyed_items(items),
        content_belongs(items, command, outcome),
        command is Create ==> !items.contains_key(plan.item.id),
        crate::items::commands::command_refusal(policy, items, active, command, outcome, mode)
            is None,
        crate::items::commands::plan_fits(items, command, outcome, now, mode, plan),
        childless(items, id) != childless(items.insert(plan.item.id, plan.item), id),
    ensures
        plan.refreshed_parents@.contains(id),
{
    let after = items.insert(plan.item.id, plan.item);
    if childless(items, id) {
        let child = choose|child: Uuid| #[trigger]
            after.contains_key(child) && after[child].deleted_at is None && after[child].parent_id
                == Some(id);
        if child != plan.item.id {
            assert(items.contains_key(child));
        }
    } else {
        let child = choose|child: Uuid| #[trigger]
            items.contains_key(child) && items[child].deleted_at is None && items[child].parent_id
                == Some(id);
        if child != plan.item.id {
            assert(after.contains_key(child));
        } else {
            assert(after.contains_key(child));
        }
    }
}

/// Only a parent that the item had, or has now, is refreshed.
pub proof fn only_parents_of_the_item_are_refreshed(
    policy: ItemPolicy,
    items: Map<Uuid, Item>,
    active: Option<ActiveExecution>,
    command: TransactionalItemCommand,
    outcome: Result<Item, ItemRepositoryError>,
    now: Instant,
    mode: TransactionalGraphMode,
    plan: ItemCommandPlan,
    id: Uuid,
)
    requires
        content_belongs(items, command, outcome),
        crate::items::commands::command_refusal(policy, items, active, command, outcome, mode)
            is None,
        crate::items::commands::plan_fits(items, command, outcome, now, mode, plan),
        plan.refreshed_parents@.contains(id),
    ensures
        plan.item.parent_id == Some(id) || (!(command is Create)
            && items[plan.item.id].parent_id == Some(id)),
{
}

/// Trashing an item on its own is accepted exactly if it would be accepted in a batch and the
/// item is not being worked on.
pub proof fn single_trash_is_a_trash_of_an_idle_item(
    policy: ItemPolicy,
    items: Map<Uuid, Item>,
    active: Option<ActiveExecution>,
    item_id: Uuid,
    expected_revision: u64,
    outcome: Result<Item, ItemRepositoryError>,
)
    ensures
        (crate::items::commands::single_trash_refusal(
            items,
            active,
            item_id,
            expected_revision,
            outcome,
        ) is None) <==> {
            &&& items.contains_key(item_id)
            &&& items[item_id].deleted_at is None
            &&& items[item_id].revision == expected_revision
            &&& !being_worked_on(active, Some(item_id))
            &&& childless(items, item_id)
            &&& outcome is Ok
        },
{
    lemma_childless(items, item_id);
}

/// A parent that is refused for closing a circle would close one: once the item is under it,
/// the way up from the item never ends.
pub proof fn refused_parent_would_close_a_circle(
    policy: ItemPolicy,
    items: Map<Uuid, Item>,
    item_id: Uuid,
    item: Item,
)
    requires
        crate::items::hierarchy::acyclic(items),
        crate::items::hierarchy::parent_check(policy, items, item_id, item.parent_id) == Err::<
            (),
            ItemRepositoryError,
        >(ItemRepositoryError::HierarchyCycle),
    ensures
        !crate::items::hierarchy::acyclic(items.insert(item_id, item)),
{
    let parent = item.parent_id->0;
    let after = items.insert(item_id, item);
    assert(crate::items::hierarchy::rooted(items, parent));
    let end = choose|n: nat| (#[trigger] crate::items::hierarchy::ancestor(items, parent, n)) is None;
    assert(exists|n: nat| #[trigger]
        crate::items::hierarchy::ancestor(items, parent, n) == Some(item_id));
    let far = choose|n: nat| #[trigger]
        crate::items::hierarchy::ancestor(items, parent, n) == Some(item_id);
    let met = crate::items::hierarchy::lemma_first_meeting(
        items,
        parent,
        item_id,
        far + 1,
    );
    assert forall|id: Uuid| id != item_id implies #[trigger] crate::items::hierarchy::parent_of(
        items,
        id,
    ) == crate::items::hierarchy::parent_of(after, id) by {}
    crate::items::hierarchy::lemma_same_way(items, after, parent, item_id, met);
    lemma_round_and_round(after, item_id, parent, met);
}

proof fn lemma_round_and_round(items: Map<Uuid, Item>, id: Uuid, parent: Uuid, met: nat)
    requires
        items.contains_key(id),
        items[id].parent_id == Some(parent),
        crate::items::hierarchy::ancestor(items, parent, met) == Some(id),
    ensures
        !crate::items::hierarchy::rooted(items, id),
{
    assert(crate::items::hierarchy::ancestor(items, id, 0) == Some(id));
    assert(crate::items::hierarchy::ancestor(items, id, 1) == Some(parent)) by {
        reveal_with_fuel(crate::items::hierarchy::ancestor, 2);
    }
    crate::items::hierarchy::lemma_ancestor_add(items, id, 1, met);
    assert(crate::items::hierarchy::ancestor(items, id, 1 + met) == Some(id));
    assert forall|m: nat| (#[trigger] crate::items::hierarchy::ancestor(items, id, m)) is Some by {
        crate::items::hierarchy::lemma_repeat_is_endless(items, id, 0, 1 + met, m);
    }
}

/// A parent that is accepted leads up to a root without passing the item: the way up from it
/// ends, and no item on it is the one that is put under it.
pub proof fn accepted_parents_lead_to_a_root(
    policy: ItemPolicy,
    items: Map<Uuid, Item>,
    item_id: Uuid,
    parent: Uuid,
    n: nat,
)
    requires
        crate::items::hierarchy::parent_check(policy, items, item_id, Some(parent)) is Ok,
    ensures
        exists|end: nat| (#[trigger] crate::items::hierarchy::ancestor(items, parent, end)) is None,
        crate::items::hierarchy::ancestor(items, parent, n) != Some(item_id),
        parent != item_id,
        items.contains_key(parent) && items[parent].deleted_at is None,
        !policy.executing@.contains(items[parent].status),
{
    assert(crate::items::hierarchy::ancestor(items, parent, n) != Some(item_id));
}

/// The way up from an item goes from parent to parent.
pub proof fn ways_up_go_from_parent_to_parent(items: Map<Uuid, Item>, id: Uuid, n: nat)
    ensures
        crate::items::hierarchy::ancestor(items, id, 0) == Some(id),
        crate::items::hierarchy::ancestor(items, id, n) is Some ==> ({
            let at = crate::items::hierarchy::ancestor(items, id, n)->0;
            crate::items::hierarchy::ancestor(items, id, n + 1) == if items.contains_key(at) {
                items[at].parent_id
            } else {
                None
            }
        }),
        crate::items::hierarchy::ancestor(items, id, n) is None
            ==> crate::items::hierarchy::ancestor(items, id, n + 1) is None,
{
}

} // verus!
