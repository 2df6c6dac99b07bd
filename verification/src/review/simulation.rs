//! The trial of a change set: its commands in a workable order, and what they leave behind.
use std::collections::BTreeMap;

use vstd::prelude::*;

use crate::items::batch::{command_execution_order, CommandBatch};
use crate::items::commands::TransactionalItemEffect;
use crate::items::model::{Item, ItemRepositoryError};
use crate::items::projection::{graph_conflict_index, validate_initial_command_fences};
use crate::proposals::application::{ProposalCommand, ProposalConflict};
use crate::review::conflicts::item_conflict;
use crate::time::Uuid;

verus! {

/// Whether every command was made for the items as they are.
pub open spec fn fences_hold(commands: Seq<ProposalCommand>, initial: Map<Uuid, Item>) -> bool {
    forall|k: int|
        0 <= k < commands.len() ==> crate::items::projection::fence_refusal(
            #[trigger] commands[k],
            initial,
        ) is None
}

/// Whether `error` is why the command at `index` was not made for the items as they are,
/// and every command before it was.
pub open spec fn fence_broken(
    commands: Seq<ProposalCommand>,
    initial: Map<Uuid, Item>,
    index: usize,
    error: ItemRepositoryError,
) -> bool {
    &&& index < commands.len()
    &&& crate::items::projection::fence_refusal(commands[index as int], initial) == Some(error)
    &&& forall|k: int|
        0 <= k < index ==> crate::items::projection::fence_refusal(
            #[trigger] commands[k],
            initial,
        ) is None
}

/// Whether `order` is the order of a trial on the items `initial`.
pub open spec fn trial_order<
    C: Fn(&ProposalCommand, Option<&Item>) -> Result<Item, ItemRepositoryError>,
    R: Fn(&Item, bool) -> Result<Item, ItemRepositoryError>,
    G: Fn(&BTreeMap<Uuid, Item>) -> Result<(), ItemRepositoryError>,
>(batch: CommandBatch<C, R, G>, initial: Map<Uuid, Item>, order: Seq<usize>) -> bool {
    exists|start: crate::items::projection::BatchView, waits: Seq<Option<usize>>|
        {
            &&& #[trigger] crate::items::batch::batch_opens(batch, initial, start, waits)
            &&& crate::items::ordering::workable_order(batch, start, waits, order)
            &&& crate::items::visits::search_finds(batch, start, waits, order)
            &&& crate::items::ordering::settled(batch, start)
                ==> crate::items::ordering::first_workable(batch, start, waits, order)
        }
}

/// Whether `error` can be why a trial on the items `initial` has no order, and `index` the
/// command that it concerns.
pub open spec fn trial_refused<
    C: Fn(&ProposalCommand, Option<&Item>) -> Result<Item, ItemRepositoryError>,
    R: Fn(&Item, bool) -> Result<Item, ItemRepositoryError>,
    G: Fn(&BTreeMap<Uuid, Item>) -> Result<(), ItemRepositoryError>,
>(
    batch: CommandBatch<C, R, G>,
    initial: Map<Uuid, Item>,
    index: usize,
    error: ItemRepositoryError,
) -> bool {
    ||| crate::items::projection::start_refused(
        *batch.content,
        batch.commands@,
        initial,
        index,
        error,
    )
    ||| exists|start: crate::items::projection::BatchView, waits: Seq<Option<usize>>|
        {
            &&& #[trigger] crate::items::batch::batch_opens(batch, initial, start, waits)
            &&& crate::items::ordering::order_refused(batch, start, waits, index, error)
        }
}

/// The order in which the commands of a change set are tried on the items `initial_by_id`.
/// Every command must have been made for the items as they are before any order is looked
/// for.
pub fn simulation_order<
    C: Fn(&ProposalCommand, Option<&Item>) -> Result<Item, ItemRepositoryError>,
    R: Fn(&Item, bool) -> Result<Item, ItemRepositoryError>,
    G: Fn(&BTreeMap<Uuid, Item>) -> Result<(), ItemRepositoryError>,
>(batch: &CommandBatch<C, R, G>, initial_by_id: &BTreeMap<Uuid, Item>) -> (result: Result<
    Vec<usize>,
    ProposalConflict,
>)
    requires
        batch.commands@.len() <= crate::items::ordering::MAX_ORDERED_COMMANDS,
        batch.rules_answer(),
        forall|command: &ProposalCommand, current: Option<&Item>, created: Item|
            call_ensures(*batch.content, (command, current), Ok::<Item, ItemRepositoryError>(created))
                ==> created.id == command.spec_target(),
    ensures
        match result {
            Ok(order) => fences_hold(batch.commands@, initial_by_id@) && trial_order(
                *batch,
                initial_by_id@,
                order@,
            ),
            Err(conflict) => exists|index: usize, error: ItemRepositoryError|
                {
                    &&& index < batch.commands@.len()
                    &&& conflict@ == #[trigger] crate::review::conflicts::conflict_of(
                        batch.commands@[index as int],
                        error,
                    )
                    &&& {
                        ||| fence_broken(batch.commands@, initial_by_id@, index, error)
                        ||| fences_hold(batch.commands@, initial_by_id@) && trial_refused(
                            *batch,
                            initial_by_id@,
                            index,
                            error,
                        )
                    }
                },
        },
{
    match validate_initial_command_fences(batch.commands, initial_by_id) {
        Ok(_) => {},
        Err((index, error)) => {
            return Err(item_conflict(&batch.commands[index], &error));
        },
    }
    match command_execution_order(batch, initial_by_id) {
        Ok(order) => Ok(order),
        Err((index, error)) => Err(item_conflict(&batch.commands[index], &error)),
    }
}

/// The conflict of a change set that leaves a circle of dependencies behind: it is that of
/// the first command that replaces an item, or of the first command of all.
pub fn graph_conflict(commands: &Vec<ProposalCommand>, error: &ItemRepositoryError) -> (result:
    ProposalConflict)
    requires
        commands@.len() > 0,
    ensures
        exists|at: int|
            {
                &&& 0 <= at < commands@.len()
                &&& result@ == #[trigger] crate::review::conflicts::conflict_of(
                    commands@[at],
                    *error,
                )
                &&& if commands@[at] is ReplaceItem {
                    forall|k: int| 0 <= k < at ==> !((#[trigger] commands@[k]) is ReplaceItem)
                } else {
                    at == 0 && forall|k: int|
                        0 <= k < commands@.len() ==> !((#[trigger] commands@[k]) is ReplaceItem)
                }
            },
{
    let at: usize = graph_conflict_index(commands);
    let conflict: ProposalConflict = item_conflict(&commands[at], error);
    assert(conflict@ == crate::review::conflicts::conflict_of(commands@[at as int], *error));
    conflict
}

/// Whether `effect` is what a trial left of the item of a command: the item as it was
/// before the trial, if it was there, and as the whole trial leaves it.
pub open spec fn effect_fits(
    command: ProposalCommand,
    ordinal: int,
    initial: Map<Uuid, Item>,
    left: Map<Uuid, Item>,
    effect: TransactionalItemEffect,
) -> bool {
    let id = command.spec_target();
    &&& match effect.before {
        Some(before) => initial.contains_key(id) && crate::items::model::item_same(
            initial[id],
            before,
        ),
        None => !initial.contains_key(id),
    }
    &&& left.contains_key(id)
    &&& crate::items::model::item_same(left[id], effect.after)
    &&& effect.execution_ordinal == ordinal
}

/// Whether `order` names each of `count` commands once.
pub open spec fn full_order(order: Seq<usize>, count: nat) -> bool {
    &&& order.len() == count
    &&& order.no_duplicates()
    &&& forall|p: int| 0 <= p < order.len() ==> #[trigger] order[p] < count
}

fn ordinal_of(order: &Vec<usize>, command: usize) -> (result: usize)
    requires
        order@.contains(command),
    ensures
        result < order@.len(),
        order@[result as int] == command,
{
    let mut p: usize = 0;
    while order[p] != command
        invariant
            p < order.len(),
            order@.contains(command),
            forall|q: int| 0 <= q < p ==> order@[q] != command,
        decreases order@.len() - p,
    {
        proof {
            let at = choose|at: int| 0 <= at < order@.len() && order@[at] == command;
            assert(at > p);
        }
        p = p + 1;
    }
    p
}

/// What a trial left of the items of its commands, in the order of the commands. `order`
/// is the order in which they were carried out, `initial` are the items before and `left`
/// those after the whole trial: a later command may have changed the item of an earlier
/// one once more.
pub fn simulated_effects(
    commands: &Vec<ProposalCommand>,
    order: &Vec<usize>,
    initial: &BTreeMap<Uuid, Item>,
    left: &BTreeMap<Uuid, Item>,
) -> (result: Result<Vec<TransactionalItemEffect>, ProposalConflict>)
    requires
        full_order(order@, commands@.len()),
    ensures
        match result {
            Ok(effects) => {
                &&& effects@.len() == commands@.len()
                &&& forall|p: int|
                    0 <= p < order@.len() ==> effect_fits(
                        commands@[#[trigger] order@[p] as int],
                        p,
                        initial@,
                        left@,
                        effects@[order@[p] as int],
                    )
            },
            Err(conflict) => exists|k: int|
                {
                    &&& 0 <= k < commands@.len()
                    &&& !left@.contains_key(commands@[k].spec_target())
                    &&& conflict@ == #[trigger] crate::review::conflicts::conflict_of(
                        commands@[k],
                        ItemRepositoryError::NotFound(commands@[k].spec_target()),
                    )
                    &&& forall|j: int|
                        0 <= j < k ==> left@.contains_key((#[trigger] commands@[j]).spec_target())
                },
        },
{
    let count: usize = commands.len();
    proof {
        crate::items::ordering::lemma_full_order(order@, count as nat);
    }
    let mut effects: Vec<TransactionalItemEffect> = Vec::new();
    let mut k: usize = 0;
    while k < count
        invariant
            k <= count,
            count == commands@.len(),
            full_order(order@, commands@.len()),
            forall|i: usize| i < commands@.len() ==> order@.contains(i),
            effects@.len() == k,
            forall|p: int|
                0 <= p < order@.len() && #[trigger] order@[p] < k ==> effect_fits(
                    commands@[order@[p] as int],
                    p,
                    initial@,
                    left@,
                    effects@[order@[p] as int],
                ),
            forall|j: int|
                0 <= j < k ==> left@.contains_key((#[trigger] commands@[j]).spec_target()),
        decreases commands@.len() - k,
    {
        let id: Uuid = commands[k].target_item_id();
        let after: Item = match left.get(&id) {
            Some(item) => item.clone(),
            None => {
                let conflict: ProposalConflict = item_conflict(
                    &commands[k],
                    &ItemRepositoryError::NotFound(id),
                );
                assert(conflict@ == crate::review::conflicts::conflict_of(
                    commands@[k as int],
                    ItemRepositoryError::NotFound(commands@[k as int].spec_target()),
                ));
                return Err(conflict);
            },
        };
        let before: Option<Item> = match initial.get(&id) {
            Some(item) => Some(item.clone()),
            None => None,
        };
        let execution_ordinal: usize = ordinal_of(order, k);
        let ghost earlier = effects@;
        effects.push(TransactionalItemEffect { before, after, execution_ordinal });
        assert forall|p: int| 0 <= p < order@.len() && #[trigger] order@[p] < k + 1 implies effect_fits(
            commands@[order@[p] as int],
            p,
            initial@,
            left@,
            effects@[order@[p] as int],
        ) by {
            if order@[p] < k {
                assert(effects@[order@[p] as int] == earlier[order@[p] as int]);
            } else {
                assert(order@[p] == order@[execution_ordinal as int]);
                assert(p == execution_ordinal);
            }
        }
        k = k + 1;
    }
    Ok(effects)
}

/// What a trial left behind can be taken back: each place of the order in which its
/// commands were carried out is that of one of its effects.
pub proof fn simulated_effects_can_be_taken_back(
    commands: Seq<ProposalCommand>,
    order: Seq<usize>,
    initial: Map<Uuid, Item>,
    left: Map<Uuid, Item>,
    effects: Seq<TransactionalItemEffect>,
)
    requires
        full_order(order, commands.len()),
        effects.len() == commands.len(),
        forall|p: int|
            0 <= p < order.len() ==> effect_fits(
                commands[#[trigger] order[p] as int],
                p,
                initial,
                left,
                effects[order[p] as int],
            ),
    ensures
        forall|ordinal: int|
            0 <= ordinal < effects.len() ==> #[trigger] crate::review::undoing::ordinal_taken(
                effects,
                ordinal,
            ),
{
    assert forall|ordinal: int|
        0 <= ordinal < effects.len() implies #[trigger] crate::review::undoing::ordinal_taken(
        effects,
        ordinal,
    ) by {
        let k = order[ordinal] as int;
        assert(effects[k].execution_ordinal == ordinal);
    }
}

} // verus!
