//! That what is foreseen of a batch is what carrying it out would do.
use vstd::prelude::*;

use crate::items::commands::{command_refusal, TransactionalGraphMode, TransactionalItemCommand};
use crate::items::model::{Item, ItemPolicy, ItemRepositoryError, ItemStatus};
use crate::items::projection::{
    early_refusal, fence_refusal, late_refusal, parents_fit, placed, projects, refresh_passes,
    refreshes, replaced_targets, shell_fits, waits_for, BatchView,
};
use crate::proposals::application::ProposalCommand;
use crate::time::Uuid;

verus! {

/// Whether carrying out a command of a change set is to carry out this command on items.
pub open spec fn carries_out(
    command: ProposalCommand,
    carried: TransactionalItemCommand,
    revision: u64,
) -> bool {
    match (command, carried) {
        (ProposalCommand::CreateItem { item, .. }, TransactionalItemCommand::Create(new)) => new
            == item,
        (
            ProposalCommand::ReplaceItem { item_id, item, .. },
            TransactionalItemCommand::Replace { item_id: target, expected_revision, replacement },
        ) => target == item_id && expected_revision == revision && replacement == item,
        (
            ProposalCommand::TrashItem { item_id, .. },
            TransactionalItemCommand::Trash { item_id: target, expected_revision },
        ) => target == item_id && expected_revision == revision,
        (
            ProposalCommand::RestoreItem { item_id, .. },
            TransactionalItemCommand::Restore { item_id: target, expected_revision },
        ) => target == item_id && expected_revision == revision,
        _ => false,
    }
}

/// The item that a command is about.
pub open spec fn item_of(command: ProposalCommand) -> Uuid {
    match command {
        ProposalCommand::CreateItem { item, .. } => item.id,
        ProposalCommand::ReplaceItem { item_id, .. } => item_id,
        ProposalCommand::TrashItem { item_id, .. } => item_id,
        ProposalCommand::RestoreItem { item_id, .. } => item_id,
    }
}

/// What is foreseen of a command is what carrying it out gives: on the foreseen items, and
/// with no work running, it is refused exactly if carrying it out would be, and with the same
/// error. Only a new item must be one that the batch has not created yet.
pub proof fn foreseen_refusals_are_those_of_carrying_out(
    policy: ItemPolicy,
    command: ProposalCommand,
    carried: TransactionalItemCommand,
    state: BatchView,
    made: Item,
)
    requires
        carries_out(command, carried, state.items[item_of(command)].revision),
    ensures
        ({
            let early = early_refusal(policy, command, state);
            let late = late_refusal(policy, command, state.items, made);
            let outcome = Ok::<Item, ItemRepositoryError>(made);
            let refused = command_refusal(
                policy,
                state.items,
                None,
                carried,
                outcome,
                TransactionalGraphMode::DeferredWithStagedCreates,
            );
            &&& command is CreateItem ==> (early is None) == state.pending.contains(
                item_of(command),
            )
            &&& command is CreateItem ==> late == refused
            &&& !(command is CreateItem) ==> refused == if early is Some {
                early
            } else {
                late
            }
        }),
{
}

/// A command was made for the items as they are exactly if the item that it creates is not
/// there, or the one that it changes is there with the revision that the command names, in the
/// trash for one that is restored and outside it for any other.
pub proof fn fences_hold_exactly(command: ProposalCommand, items: Map<Uuid, Item>)
    ensures
        (fence_refusal(command, items) is None) <==> match command {
            ProposalCommand::CreateItem { item, .. } => !items.contains_key(item.id),
            ProposalCommand::ReplaceItem { item_id, expected_revision, .. } => items.contains_key(
                item_id,
            ) && items[item_id].deleted_at is None && items[item_id].revision == expected_revision,
            ProposalCommand::TrashItem { item_id, expected_revision, .. } => items.contains_key(
                item_id,
            ) && items[item_id].deleted_at is None && items[item_id].revision == expected_revision,
            ProposalCommand::RestoreItem { item_id, expected_revision, .. } => items.contains_key(
                item_id,
            ) && items[item_id].deleted_at is Some && items[item_id].revision == expected_revision,
        },
        match fence_refusal(command, items) {
            None => true,
            Some(ItemRepositoryError::Duplicate(id)) => command is CreateItem && id == item_of(
                command,
            ),
            Some(ItemRepositoryError::NotFound(id)) => id == item_of(command) && !(command
                is CreateItem) && (!items.contains_key(id) || (items[id].deleted_at is Some) != (
            command is RestoreItem)),
            Some(ItemRepositoryError::RevisionConflict { expected, actual }) => actual
                == items[item_of(command)].revision && expected != actual,
            Some(_) => false,
        },
{
}

/// The item under which a new or replaced item is to stand.
pub open spec fn parent_named(command: ProposalCommand) -> Option<Uuid> {
    match command {
        ProposalCommand::CreateItem { item, .. } => item.parent_id,
        ProposalCommand::ReplaceItem { item, .. } => item.parent_id,
        ProposalCommand::TrashItem { .. } => None,
        ProposalCommand::RestoreItem { .. } => None,
    }
}

/// A command waits for the one that creates the parent that it names, and for no other.
pub proof fn commands_wait_for_their_parents(
    commands: Seq<ProposalCommand>,
    k: int,
    prerequisite: Option<usize>,
    j: int,
)
    requires
        0 <= k < commands.len(),
        0 <= j < commands.len(),
        waits_for(commands, k, prerequisite),
        forall|a: int, b: int|
            0 <= a < commands.len() && 0 <= b < commands.len() && (#[trigger] commands[a])
                is CreateItem && (#[trigger] commands[b]) is CreateItem && item_of(commands[a])
                == item_of(commands[b]) ==> a == b,
    ensures
        prerequisite == Some(j as usize) && j <= usize::MAX <==> j <= usize::MAX && commands[j]
            is CreateItem && parent_named(commands[k]) == Some(item_of(commands[j])),
        prerequisite is Some ==> prerequisite->0 < commands.len(),
{
    match prerequisite {
        Some(at) => {
            assert(commands[at as int] is CreateItem);
        },
        None => {},
    }
}

/// An item that is foreseen before its command keeps its own content, and stands nowhere: it
/// has no parent, waits for nothing and is not done.
pub proof fn shells_stand_nowhere(policy: ItemPolicy, made: Item, shell: Item)
    requires
        shell_fits(policy, made, shell),
    ensures
        shell.id == made.id,
        shell.revision == made.revision,
        shell.kind == made.kind,
        shell.title == made.title,
        shell.sibling_order == made.sibling_order,
        shell.deleted_at == made.deleted_at,
        shell.recurrence == made.recurrence,
        shell.is_sensitive == made.is_sensitive,
        shell.parent_id is None,
        shell.dependencies@.len() == 0,
        shell.blocked_by_item_id is None,
        shell.blocked_reason is None,
        shell.blocked_reason_kind is None,
        shell.completed_at is None,
        shell.status == ItemStatus::Planned,
        shell.is_executable == (made.deleted_at is None && policy.executable@.contains(
            (made.kind, made.has_own_effort),
        )),
{
}

proof fn lemma_passes_leave_others<R: Fn(&Item, bool) -> Result<Item, ItemRepositoryError>>(
    refresh: R,
    parents: Seq<Uuid>,
    states: Seq<Map<Uuid, Item>>,
    k: int,
    id: Uuid,
)
    requires
        refresh_passes(refresh, parents, states),
        0 <= k < states.len(),
        !parents.contains(id),
    ensures
        states[k].contains_key(id) == states[0].contains_key(id),
        states[k].contains_key(id) ==> states[k][id] == states[0][id],
    decreases k,
{
    if k > 0 {
        lemma_passes_leave_others(refresh, parents, states, k - 1, id);
        assert(parents.contains(parents[k - 1]));
        assert(states[k] == states[k - 1].insert(parents[k - 1], states[k][parents[k - 1]]));
    }
}

/// A command that is foreseen changes its own item and the parents that the item had or has,
/// and no other, and a new item is no longer to be created.
pub proof fn bystanders_stay_as_they_are<
    C: Fn(&ProposalCommand, Option<&Item>) -> Result<Item, ItemRepositoryError>,
    R: Fn(&Item, bool) -> Result<Item, ItemRepositoryError>,
    G: Fn(&std::collections::BTreeMap<Uuid, Item>) -> Result<(), ItemRepositoryError>,
>(
    policy: ItemPolicy,
    content: C,
    refresh: R,
    graph: G,
    command: ProposalCommand,
    state: BatchView,
    next: BatchView,
    id: Uuid,
)
    requires
        projects(policy, content, refresh, graph, command, state, next),
        forall|made: Item|
            #![trigger made.id]
            crate::items::projection::content_gives(
                content,
                command,
                state.items,
                Ok::<Item, ItemRepositoryError>(made),
            ) ==> made.id == item_of(command) && (made.parent_id != Some(id)),
        id != item_of(command),
        !(command is CreateItem) ==> state.items[item_of(command)].parent_id != Some(id),
    ensures
        next.items.contains_key(id) == state.items.contains_key(id),
        state.items.contains_key(id) ==> next.items[id] == state.items[id],
        next.pending.contains(id) == state.pending.contains(id),
        command is CreateItem ==> !next.pending.contains(item_of(command)),
        !(command is CreateItem) ==> next.pending == state.pending,
{
    let (made, parents) = choose|made: Item, parents: Seq<Uuid>|
        {
            &&& crate::items::projection::accepted(policy, content, command, state, made)
            &&& #[trigger] parents_fit(command, state.items, made, parents)
            &&& refreshes(refresh, placed(policy, state.items, made), parents, next.items)
        };
    let from = placed(policy, state.items, made);
    let states = choose|states: Seq<Map<Uuid, Item>>| #[trigger]
        refresh_passes(refresh, parents, states) && states[0] == from
            && states[parents.len() as int] == next.items;
    assert(made.id == item_of(command));
    assert(!crate::items::projection::parent_to_refresh(command, state.items, made, id));
    assert(!parents.contains(id));
    lemma_passes_leave_others(refresh, parents, states, parents.len() as int, id);
}

/// An item that is put in its place can be worked on exactly if its kind allows it, it is not
/// in the trash, and nothing outside the trash stands under it. No other item is touched.
pub proof fn items_are_placed_as_made(policy: ItemPolicy, items: Map<Uuid, Item>, made: Item)
    ensures
        ({
            let after = placed(policy, items, made);
            &&& forall|id: Uuid|
                #![trigger after.contains_key(id)]
                #![trigger after[id]]
                id != made.id ==> after.contains_key(id) == items.contains_key(id) && (
                items.contains_key(id) ==> after[id] == items[id])
            &&& after.contains_key(made.id)
            &&& after[made.id] == (Item { is_executable: after[made.id].is_executable, ..made })
            &&& after[made.id].is_executable <==> made.deleted_at is None
                && policy.executable@.contains((made.kind, made.has_own_effort)) && forall|
                child: Uuid,
            | #[trigger]
                after.contains_key(child) && after[child].deleted_at is None
                    ==> after[child].parent_id != Some(made.id)
        }),
{
    let standing = items.insert(made.id, made);
    let after = placed(policy, items, made);
    if crate::items::hierarchy::has_live_child(standing, made.id) {
        let child = choose|child: Uuid| #[trigger]
            crate::items::hierarchy::live(standing, child) && standing[child].parent_id == Some(
                made.id,
            );
        assert(after.contains_key(child));
    } else {
        assert forall|child: Uuid| #[trigger]
            after.contains_key(child) && after[child].deleted_at is None implies
            after[child].parent_id != Some(made.id) by {
            assert(!crate::items::hierarchy::live(standing, child) || standing[child].parent_id
                != Some(made.id));
        }
    }
}

/// Predecessors are taken away before a batch from the items that it replaces, and from no
/// others.
pub proof fn only_replaced_items_lose_predecessors(commands: Seq<ProposalCommand>, id: Uuid)
    ensures
        replaced_targets(commands).contains(id) <==> exists|k: int|
            0 <= k < commands.len() && (#[trigger] commands[k]) is ReplaceItem && item_of(
                commands[k],
            ) == id,
    decreases commands.len(),
{
    if commands.len() > 0 {
        let first = commands.drop_last();
        only_replaced_items_lose_predecessors(first, id);
        let before = replaced_targets(first);
        let n = commands.len() - 1;
        if before.contains(id) {
            let k = choose|k: int|
                0 <= k < first.len() && (#[trigger] first[k]) is ReplaceItem && item_of(first[k])
                    == id;
            assert(commands[k] == first[k]);
            let i = choose|i: int| 0 <= i < before.len() && before[i] == id;
            assert(replaced_targets(commands)[i] == id);
        }
        if commands[n] is ReplaceItem && item_of(commands[n]) == id {
            assert(replaced_targets(commands)[before.len() as int] == id);
        }
        if exists|k: int|
            0 <= k < commands.len() && (#[trigger] commands[k]) is ReplaceItem && item_of(
                commands[k],
            ) == id {
            let k = choose|k: int|
                0 <= k < commands.len() && (#[trigger] commands[k]) is ReplaceItem && item_of(
                    commands[k],
                ) == id;
            if k < n {
                assert(first[k] == commands[k]);
            }
        }
        if replaced_targets(commands).contains(id) && !before.contains(id) {
            let i = choose|i: int|
                0 <= i < replaced_targets(commands).len() && replaced_targets(commands)[i] == id;
            if i < before.len() {
                assert(before[i] == id);
            }
            assert(commands[n] is ReplaceItem && item_of(commands[n]) == id);
        }
    }
}

/// The parents that are refreshed when a command is foreseen are those that are refreshed when
/// it is carried out.
pub proof fn foreseen_parents_are_those_of_carrying_out(
    command: ProposalCommand,
    carried: TransactionalItemCommand,
    items: Map<Uuid, Item>,
    made: Item,
    parents: Seq<Uuid>,
    now: crate::time::Instant,
    mode: TransactionalGraphMode,
    plan: crate::items::commands::ItemCommandPlan,
    id: Uuid,
)
    requires
        carries_out(command, carried, items[item_of(command)].revision),
        command is TrashItem ==> made.parent_id == items[item_of(command)].parent_id,
        parents_fit(command, items, made, parents),
        crate::items::commands::plan_fits(
            items,
            carried,
            Ok::<Item, ItemRepositoryError>(made),
            now,
            mode,
            plan,
        ),
    ensures
        parents.contains(id) <==> plan.refreshed_parents@.contains(id),
{
    assert(parents.contains(id) <==> crate::items::projection::parent_to_refresh(
        command,
        items,
        made,
        id,
    ));
}

/// A command is foreseen to be accepted exactly if the rules for item content make its item and
/// carrying it out would be accepted; a new item must be one that the batch has not created.
pub proof fn accepted_commands_can_be_carried_out<
    C: Fn(&ProposalCommand, Option<&Item>) -> Result<Item, ItemRepositoryError>,
>(
    policy: ItemPolicy,
    content: C,
    command: ProposalCommand,
    carried: TransactionalItemCommand,
    state: BatchView,
    made: Item,
)
    requires
        carries_out(command, carried, state.items[item_of(command)].revision),
    ensures
        crate::items::projection::accepted(policy, content, command, state, made) <==> {
            &&& command_refusal(
                policy,
                state.items,
                None,
                carried,
                Ok::<Item, ItemRepositoryError>(made),
                TransactionalGraphMode::DeferredWithStagedCreates,
            ) is None
            &&& command is CreateItem ==> state.pending.contains(item_of(command))
            &&& command is CreateItem ==> call_ensures(
                content,
                (&command, None::<&Item>),
                Ok::<Item, ItemRepositoryError>(made),
            )
            &&& !(command is CreateItem) ==> call_ensures(
                content,
                (&command, Some(&state.items[item_of(command)])),
                Ok::<Item, ItemRepositoryError>(made),
            )
        },
{
}

/// A command that is foreseen to be refused is refused for what it is: a new item is no longer
/// to be created, the rules for item content refuse it, or carrying it out would be refused
/// with the same error.
pub proof fn refused_commands_could_not_be_carried_out<
    C: Fn(&ProposalCommand, Option<&Item>) -> Result<Item, ItemRepositoryError>,
>(
    policy: ItemPolicy,
    content: C,
    command: ProposalCommand,
    carried: TransactionalItemCommand,
    state: BatchView,
    made: Item,
    error: ItemRepositoryError,
)
    requires
        carries_out(command, carried, state.items[item_of(command)].revision),
        crate::items::projection::acceptance_refused(policy, content, command, state, error),
        forall|outcome: Result<Item, ItemRepositoryError>| #[trigger]
            crate::items::projection::content_gives(content, command, state.items, outcome)
                ==> outcome == Ok::<Item, ItemRepositoryError>(made),
    ensures
        command is CreateItem && !state.pending.contains(item_of(command)) ==> error
            == ItemRepositoryError::Duplicate(item_of(command)),
        !(command is CreateItem) || state.pending.contains(item_of(command)) ==> command_refusal(
            policy,
            state.items,
            None,
            carried,
            Ok::<Item, ItemRepositoryError>(made),
            TransactionalGraphMode::DeferredWithStagedCreates,
        ) == Some(error),
{
    foreseen_refusals_are_those_of_carrying_out(policy, command, carried, state, made);
    if early_refusal(policy, command, state) is None {
        if crate::items::projection::content_gives(
            content,
            command,
            state.items,
            Err::<Item, ItemRepositoryError>(error),
        ) {
        } else {
            let other = choose|other: Item|
                {
                    &&& #[trigger] crate::items::projection::content_gives(
                        content,
                        command,
                        state.items,
                        Ok::<Item, ItemRepositoryError>(other),
                    )
                    &&& late_refusal(policy, command, state.items, other) == Some(error)
                };
            assert(Ok::<Item, ItemRepositoryError>(other) == Ok::<Item, ItemRepositoryError>(made));
        }
    }
}

/// A command that is foreseen to be accepted never puts an item under one that is being worked
/// on, nor starts work on an item that has another one under it.
pub proof fn foreseen_work_stays_with_the_leaves(
    policy: ItemPolicy,
    command: ProposalCommand,
    state: BatchView,
    made: Item,
)
    requires
        crate::items::safety::only_leaves_execute(policy, state.items),
        early_refusal(policy, command, state) is None,
        late_refusal(policy, command, state.items, made) is None,
        made.id == item_of(command),
        command is TrashItem ==> made.deleted_at is Some,
        command is RestoreItem ==> made.parent_id == state.items[made.id].parent_id,
        command is CreateItem ==> crate::items::safety::childless(state.items, made.id),
    ensures
        crate::items::safety::only_leaves_execute(policy, placed(policy, state.items, made)),
{
    let items = state.items;
    let after = placed(policy, items, made);
    let own = made.id;
    assert forall|id: Uuid, child: Uuid|
        #![trigger after.contains_key(id), after.contains_key(child)]
        after.contains_key(id) && after[id].deleted_at is None && policy.executing@.contains(
            after[id].status,
        ) && after.contains_key(child) && after[child].deleted_at is None implies
        after[child].parent_id != Some(id) by {
        if after[child].parent_id == Some(id) {
            if id != own && child != own {
                assert(items.contains_key(id) && items.contains_key(child));
            } else if id == own && child != own {
                assert(items.contains_key(child));
                assert(crate::items::hierarchy::live(items, child));
                assert(crate::items::hierarchy::has_live_child(items, own));
            }
        }
    }
}

} // verus!
