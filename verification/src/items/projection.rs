//! What the commands of a batch make of the items, before any of them is carried out.
use std::collections::{BTreeMap, BTreeSet};

use vstd::prelude::*;

use crate::items::commands::{refreshed_parents, TransactionalGraphMode};
use crate::items::hierarchy::{
    projected_has_active_children, validate_projected_blocker, validate_projected_parent,
};
use crate::items::model::{Item, ItemPolicy, ItemRepositoryError, ItemStatus};
use crate::proposals::application::ProposalCommand;
use crate::time::Uuid;

verus! {

/// The items as some commands of a batch would leave them, and the items that are still
/// to be created.
#[derive(Debug)]
pub struct ProjectedBatchState {
    pub items: BTreeMap<Uuid, Item>,
    pub pending_create_ids: BTreeSet<Uuid>,
}

/// The items of a batch and the identities that are still to be created, as collections.
pub ghost struct BatchView {
    pub items: Map<Uuid, Item>,
    pub pending: Set<Uuid>,
}

impl View for ProjectedBatchState {
    type V = BatchView;

    open spec fn view(&self) -> BatchView {
        BatchView { items: self.items@, pending: self.pending_create_ids@ }
    }
}

/// A new item before its command is carried out: its identity is there, and nothing of
/// its place in the tree, its predecessors, its completion or what blocks it.
pub open spec fn shell_fits(policy: ItemPolicy, created: Item, shell: Item) -> bool {
    &&& shell.dependencies@.len() == 0
    &&& shell == (Item {
        status: ItemStatus::Planned,
        completed_at: None,
        parent_id: None,
        blocked_reason_kind: None,
        blocked_by_item_id: None,
        blocked_reason: None,
        dependencies: shell.dependencies,
        is_executable: policy.execution_allowed(
            created.kind,
            created.has_own_effort,
            created.deleted_at is Some,
            false,
        ),
        ..created
    })
}

/// A new item before its command is carried out.
pub fn staged_item_shell(policy: &ItemPolicy, created: Item) -> (result: Item)
    ensures
        shell_fits(*policy, created, result),
{
    let mut shell: Item = created;
    shell.status = ItemStatus::Planned;
    shell.completed_at = None;
    shell.parent_id = None;
    shell.blocked_reason_kind = None;
    shell.blocked_by_item_id = None;
    shell.blocked_reason = None;
    shell.dependencies = Vec::new();
    shell.is_executable = policy.execution_is_allowed(&shell, false);
    shell
}

/// Why a command was not made for the items as they are.
pub open spec fn fence_refusal(command: ProposalCommand, items: Map<Uuid, Item>) -> Option<
    ItemRepositoryError,
> {
    match command {
        ProposalCommand::CreateItem { item, .. } => if items.contains_key(item.id) {
            Some(ItemRepositoryError::Duplicate(item.id))
        } else {
            None
        },
        ProposalCommand::ReplaceItem { item_id, expected_revision, .. } => existing_refusal(
            items,
            item_id,
            expected_revision,
            false,
        ),
        ProposalCommand::TrashItem { item_id, expected_revision, .. } => existing_refusal(
            items,
            item_id,
            expected_revision,
            false,
        ),
        ProposalCommand::RestoreItem { item_id, expected_revision, .. } => existing_refusal(
            items,
            item_id,
            expected_revision,
            true,
        ),
    }
}

/// Why a command on an item that is there was not made for the item as it is.
pub open spec fn existing_refusal(
    items: Map<Uuid, Item>,
    item_id: Uuid,
    expected_revision: u64,
    must_be_deleted: bool,
) -> Option<ItemRepositoryError> {
    if !items.contains_key(item_id) || (items[item_id].deleted_at is Some) != must_be_deleted {
        Some(ItemRepositoryError::NotFound(item_id))
    } else {
        crate::items::commands::revision_refusal(items[item_id], expected_revision)
    }
}

fn check_existing(
    items: &BTreeMap<Uuid, Item>,
    item_id: Uuid,
    expected_revision: u64,
    must_be_deleted: bool,
) -> (result: Result<(), ItemRepositoryError>)
    ensures
        result == match existing_refusal(items@, item_id, expected_revision, must_be_deleted) {
            Some(error) => Err::<(), ItemRepositoryError>(error),
            None => Ok(()),
        },
{
    match items.get(&item_id) {
        Some(item) => {
            if item.deleted_at.is_some() != must_be_deleted {
                return Err(ItemRepositoryError::NotFound(item_id));
            }
            crate::items::commands::ensure_revision(item, expected_revision)
        },
        None => Err(ItemRepositoryError::NotFound(item_id)),
    }
}

/// Whether every command was made for the items as they are. An error names the first
/// command that was not.
pub fn validate_initial_command_fences(
    commands: &Vec<ProposalCommand>,
    initial_by_id: &BTreeMap<Uuid, Item>,
) -> (result: Result<(), (usize, ItemRepositoryError)>)
    ensures
        match result {
            Ok(_) => forall|k: int|
                0 <= k < commands@.len() ==> fence_refusal(#[trigger] commands@[k], initial_by_id@)
                    is None,
            Err((index, error)) => {
                &&& index < commands@.len()
                &&& fence_refusal(commands@[index as int], initial_by_id@) == Some(error)
                &&& forall|k: int|
                    0 <= k < index ==> fence_refusal(#[trigger] commands@[k], initial_by_id@)
                        is None
            },
        },
{
    let mut index: usize = 0;
    while index < commands.len()
        invariant
            index <= commands.len(),
            forall|k: int|
                0 <= k < index ==> fence_refusal(#[trigger] commands@[k], initial_by_id@) is None,
        decreases commands.len() - index,
    {
        let checked: Result<(), ItemRepositoryError> = match &commands[index] {
            ProposalCommand::CreateItem { item, .. } => if initial_by_id.contains_key(&item.id) {
                Err(ItemRepositoryError::Duplicate(item.id))
            } else {
                Ok(())
            },
            ProposalCommand::ReplaceItem { item_id, expected_revision, .. } => check_existing(
                initial_by_id,
                *item_id,
                *expected_revision,
                false,
            ),
            ProposalCommand::TrashItem { item_id, expected_revision, .. } => check_existing(
                initial_by_id,
                *item_id,
                *expected_revision,
                false,
            ),
            ProposalCommand::RestoreItem { item_id, expected_revision, .. } => check_existing(
                initial_by_id,
                *item_id,
                *expected_revision,
                true,
            ),
        };
        match checked {
            Ok(_) => {},
            Err(error) => {
                return Err((index, error));
            },
        }
        index = index + 1;
    }
    Ok(())
}

/// The item under which a command puts its item, if the command says.
pub open spec fn wanted_parent(command: ProposalCommand) -> Option<Uuid> {
    match command {
        ProposalCommand::CreateItem { item, .. } => item.parent_id,
        ProposalCommand::ReplaceItem { item, .. } => item.parent_id,
        _ => None,
    }
}

/// Whether a command creates an item.
pub open spec fn creates(command: ProposalCommand, id: Uuid) -> bool {
    match command {
        ProposalCommand::CreateItem { item, .. } => item.id == id,
        _ => false,
    }
}

/// Whether a command waits for the one that creates the parent of its item, where one
/// does.
pub open spec fn waits_for(
    commands: Seq<ProposalCommand>,
    k: int,
    prerequisite: Option<usize>,
) -> bool {
    match prerequisite {
        Some(at) => {
            &&& at < commands.len()
            &&& wanted_parent(commands[k]) is Some
            &&& creates(commands[at as int], wanted_parent(commands[k])->0)
            &&& forall|j: int|
                at < j < commands.len() ==> !creates(
                    #[trigger] commands[j],
                    wanted_parent(commands[k])->0,
                )
        },
        None => match wanted_parent(commands[k]) {
            Some(parent_id) => forall|j: int|
                0 <= j < commands.len() ==> !creates(#[trigger] commands[j], parent_id),
            None => true,
        },
    }
}

/// The last command that creates an item.
fn creator_of(commands: &Vec<ProposalCommand>, id: Uuid) -> (result: Option<usize>)
    ensures
        match result {
            Some(at) => {
                &&& at < commands@.len()
                &&& creates(commands@[at as int], id)
                &&& forall|j: int|
                    at < j < commands@.len() ==> !creates(#[trigger] commands@[j], id)
            },
            None => forall|j: int|
                0 <= j < commands@.len() ==> !creates(#[trigger] commands@[j], id),
        },
{
    let mut found: Option<usize> = None;
    let mut i: usize = 0;
    while i < commands.len()
        invariant
            i <= commands.len(),
            match found {
                Some(at) => {
                    &&& at < i
                    &&& creates(commands@[at as int], id)
                    &&& forall|j: int| at < j < i ==> !creates(#[trigger] commands@[j], id)
                },
                None => forall|j: int| 0 <= j < i ==> !creates(#[trigger] commands@[j], id),
            },
        decreases commands.len() - i,
    {
        match &commands[i] {
            ProposalCommand::CreateItem { item, .. } => {
                if item.id == id {
                    found = Some(i);
                }
            },
            _ => {},
        }
        i = i + 1;
    }
    found
}

/// For each command the command that it waits for. Only a new parent has to be there
/// first: an item that is there already may have to lose a child before its own command
/// can be carried out.
pub fn command_prerequisites(commands: &Vec<ProposalCommand>) -> (result: Vec<Option<usize>>)
    ensures
        result@.len() == commands@.len(),
        forall|k: int|
            0 <= k < result@.len() ==> waits_for(commands@, k, #[trigger] result@[k]),
        crate::items::ordering::prerequisites_fit(result@),
{
    let mut prerequisites: Vec<Option<usize>> = Vec::new();
    let mut i: usize = 0;
    while i < commands.len()
        invariant
            i <= commands.len(),
            prerequisites@.len() == i,
            forall|k: int| 0 <= k < i ==> waits_for(commands@, k, #[trigger] prerequisites@[k]),
        decreases commands.len() - i,
    {
        let parent_id: Option<Uuid> = match &commands[i] {
            ProposalCommand::CreateItem { item, .. } => item.parent_id,
            ProposalCommand::ReplaceItem { item, .. } => item.parent_id,
            _ => None,
        };
        let prerequisite: Option<usize> = match parent_id {
            Some(id) => creator_of(commands, id),
            None => None,
        };
        prerequisites.push(prerequisite);
        i = i + 1;
    }
    prerequisites
}

/// Whether an item that is replaced has lost its predecessors, and nothing else.
pub open spec fn freed(before: Item, after: Item) -> bool {
    after.dependencies@.len() == 0 && after == (Item { dependencies: after.dependencies, ..before })
}

/// Whether a command replaces the content of an item.
pub open spec fn replaces(command: ProposalCommand, id: Uuid) -> bool {
    match command {
        ProposalCommand::ReplaceItem { item_id, .. } => item_id == id,
        _ => false,
    }
}

/// Whether `items` are the items of `initial`, those that one of the first `count`
/// commands replaces without predecessors.
pub open spec fn freed_items(
    initial: Map<Uuid, Item>,
    commands: Seq<ProposalCommand>,
    count: int,
    items: Map<Uuid, Item>,
) -> bool {
    &&& items.dom() == initial.dom()
    &&& forall|id: Uuid| #[trigger]
        initial.contains_key(id) ==> if replaced_before(commands, count, id) {
            freed(initial[id], items[id])
        } else {
            items[id] == initial[id]
        }
}

/// Whether one of the first `count` commands replaces an item.
pub open spec fn replaced_before(commands: Seq<ProposalCommand>, count: int, id: Uuid) -> bool {
    exists|k: int| 0 <= k < count && replaces(#[trigger] commands[k], id)
}

/// Whether one of the first `count` commands creates an item.
pub open spec fn created_before(commands: Seq<ProposalCommand>, count: int, id: Uuid) -> bool {
    exists|k: int| 0 <= k < count && creates(#[trigger] commands[k], id)
}

/// Takes the predecessors from the items that are replaced, as they will be gone before
/// the first command is carried out.
fn free_replaced(
    commands: &Vec<ProposalCommand>,
    initial_by_id: &BTreeMap<Uuid, Item>,
) -> (result: Result<BTreeMap<Uuid, Item>, (usize, ItemRepositoryError)>)
    ensures
        match result {
            Ok(items) => freed_items(
                initial_by_id@,
                commands@,
                commands@.len() as int,
                items@,
            ) && replaced_are_live(commands@, commands@.len() as int, initial_by_id@),
            Err((index, error)) => {
                &&& index < commands@.len()
                &&& commands@[index as int] is ReplaceItem
                &&& !crate::items::hierarchy::live(
                    initial_by_id@,
                    commands@[index as int].spec_target(),
                )
                &&& error == ItemRepositoryError::NotFound(commands@[index as int].spec_target())
                &&& replaced_are_live(commands@, index as int, initial_by_id@)
            },
        },
{
    let mut items: BTreeMap<Uuid, Item> = initial_by_id.clone();
    let mut index: usize = 0;
    while index < commands.len()
        invariant
            index <= commands.len(),
            freed_items(initial_by_id@, commands@, index as int, items@),
            replaced_are_live(commands@, index as int, initial_by_id@),
        decreases commands.len() - index,
    {
        let ghost before = items@;
        match &commands[index] {
            ProposalCommand::ReplaceItem { item_id, .. } => {
                match items.remove(item_id) {
                    Some(item) => {
                        assert(initial_by_id@.contains_key(*item_id));
                        if item.deleted_at.is_some() {
                            return Err((index, ItemRepositoryError::NotFound(*item_id)));
                        }
                        let mut emptied: Item = item;
                        emptied.dependencies = Vec::new();
                        items.insert(*item_id, emptied);
                        assert(items@.dom() =~= initial_by_id@.dom());
                        assert(replaces(commands@[index as int], *item_id));
                    },
                    None => {
                        return Err((index, ItemRepositoryError::NotFound(*item_id)));
                    },
                }
            },
            _ => {},
        }
        proof {
            assert forall|id: Uuid| #[trigger] initial_by_id@.contains_key(id) implies (
            if replaced_before(commands@, index + 1, id) {
                freed(initial_by_id@[id], items@[id])
            } else {
                items@[id] == initial_by_id@[id]
            }) by {
                if replaced_before(commands@, index as int, id) {
                    let k = choose|k: int|
                        0 <= k < index && replaces(#[trigger] commands@[k], id);
                    assert(replaced_before(commands@, index + 1, id));
                } else if replaces(commands@[index as int], id) {
                    assert(replaced_before(commands@, index + 1, id));
                } else {
                    assert(!replaced_before(commands@, index + 1, id)) by {
                        if replaced_before(commands@, index + 1, id) {
                            let k = choose|k: int|
                                0 <= k < index + 1 && replaces(#[trigger] commands@[k], id);
                            assert(k < index);
                        }
                    }
                }
            }
        }
        index = index + 1;
    }
    Ok(items)
}

/// Whether `state` is the batch before its first command: the items that are replaced
/// have lost their predecessors, and each new item is there as a shell of what the rules
/// for item content make of it.
pub open spec fn batch_begins<
    C: Fn(&ProposalCommand, Option<&Item>) -> Result<Item, ItemRepositoryError>,
>(
    policy: ItemPolicy,
    content: C,
    commands: Seq<ProposalCommand>,
    initial: Map<Uuid, Item>,
    state: BatchView,
) -> bool {
    &&& forall|id: Uuid| #[trigger]
        state.pending.contains(id) <==> created_before(
            commands,
            commands.len() as int,
            id,
        )
    &&& forall|id: Uuid| #[trigger]
        state.items.contains_key(id) <==> initial.contains_key(id)
            || state.pending.contains(id)
    &&& forall|id: Uuid| #[trigger]
        initial.contains_key(id) ==> !state.pending.contains(id) && if replaced_before(
            commands,
            commands.len() as int,
            id,
        ) {
            freed(initial[id], state.items[id])
        } else {
            state.items[id] == initial[id]
        }
    &&& forall|k: int|
        0 <= k < commands.len() && (#[trigger] commands[k]) is CreateItem ==> shell_of(
            policy,
            content,
            commands[k],
            state.items[commands[k].spec_target()],
        )
    &&& replaced_are_live(commands, commands.len() as int, initial)
    &&& forall|k: int|
        0 <= k < commands.len() && (#[trigger] commands[k]) is CreateItem ==> !created_twice(
            commands,
            k,
            initial,
        )
}

/// Whether every item that is replaced is there and live.
pub open spec fn replaced_are_live(
    commands: Seq<ProposalCommand>,
    count: int,
    initial: Map<Uuid, Item>,
) -> bool {
    forall|k: int|
        0 <= k < count && (#[trigger] commands[k]) is ReplaceItem
            ==> crate::items::hierarchy::live(initial, commands[k].spec_target())
}

/// Whether the item that a command creates is there already, or one of the commands
/// before it creates it too.
pub open spec fn created_twice(
    commands: Seq<ProposalCommand>,
    k: int,
    initial: Map<Uuid, Item>,
) -> bool {
    initial.contains_key(commands[k].spec_target()) || created_before(
        commands,
        k,
        commands[k].spec_target(),
    )
}

/// Whether the rules for item content can make an item of what a command creates.
pub open spec fn content_accepts<
    C: Fn(&ProposalCommand, Option<&Item>) -> Result<Item, ItemRepositoryError>,
>(content: C, command: ProposalCommand) -> bool {
    exists|created: Item| #[trigger]
        call_ensures(content, (&command, None::<&Item>), Ok::<Item, ItemRepositoryError>(created))
}

/// Whether `error` is why a batch cannot begin, and `index` the command that it concerns:
/// the first that replaces an item that is not live, or, where none does, the first whose
/// new item the rules for item content refuse or that creates an item that is there.
pub open spec fn start_refused<
    C: Fn(&ProposalCommand, Option<&Item>) -> Result<Item, ItemRepositoryError>,
>(
    content: C,
    commands: Seq<ProposalCommand>,
    initial: Map<Uuid, Item>,
    index: usize,
    error: ItemRepositoryError,
) -> bool {
    let command = commands[index as int];
    &&& index < commands.len()
    &&& {
        ||| {
            &&& replaced_are_live(commands, index as int, initial)
            &&& command is ReplaceItem
            &&& !crate::items::hierarchy::live(initial, command.spec_target())
            &&& error == ItemRepositoryError::NotFound(command.spec_target())
        }
        ||| {
            &&& replaced_are_live(commands, commands.len() as int, initial)
            &&& command is CreateItem
            &&& forall|k: int|
                0 <= k < index && (#[trigger] commands[k]) is CreateItem ==> content_accepts(
                    content,
                    commands[k],
                ) && !created_twice(commands, k, initial)
            &&& {
                ||| call_ensures(
                    content,
                    (&command, None::<&Item>),
                    Err::<Item, ItemRepositoryError>(error),
                )
                ||| {
                    &&& content_accepts(content, command)
                    &&& created_twice(commands, index as int, initial)
                    &&& error == ItemRepositoryError::Duplicate(command.spec_target())
                }
            }
        }
    }
}

/// Whether `shell` is the shell of the item that a command creates.
pub open spec fn shell_of<
    C: Fn(&ProposalCommand, Option<&Item>) -> Result<Item, ItemRepositoryError>,
>(policy: ItemPolicy, content: C, command: ProposalCommand, shell: Item) -> bool {
    exists|created: Item|
        call_ensures(content, (&command, None::<&Item>), Ok::<Item, ItemRepositoryError>(created))
            && #[trigger] shell_fits(policy, created, shell)
}

/// The batch before its first command. `content` is what the rules for item content make
/// of a new item. An error names the command that it concerns.
pub fn projected_batch_state<
    C: Fn(&ProposalCommand, Option<&Item>) -> Result<Item, ItemRepositoryError>,
>(
    policy: &ItemPolicy,
    content: &C,
    commands: &Vec<ProposalCommand>,
    initial_by_id: &BTreeMap<Uuid, Item>,
) -> (result: Result<ProjectedBatchState, (usize, ItemRepositoryError)>)
    requires
        forall|command: &ProposalCommand, current: Option<&Item>|
            call_requires(*content, (command, current)),
        forall|command: &ProposalCommand, current: Option<&Item>, created: Item|
            call_ensures(*content, (command, current), Ok::<Item, ItemRepositoryError>(created))
                ==> created.id == command.spec_target(),
    ensures
        match result {
            Ok(state) => batch_begins(*policy, *content, commands@, initial_by_id@, state@),
            Err((index, error)) => start_refused(
                *content,
                commands@,
                initial_by_id@,
                index,
                error,
            ),
        },
{
    let mut items: BTreeMap<Uuid, Item> = free_replaced(commands, initial_by_id)?;
    let ghost base = items@;
    let mut pending_create_ids: BTreeSet<Uuid> = BTreeSet::new();
    let mut index: usize = 0;
    while index < commands.len()
        invariant
            index <= commands.len(),
            forall|command: &ProposalCommand, current: Option<&Item>|
                call_requires(*content, (command, current)),
            forall|command: &ProposalCommand, current: Option<&Item>, created: Item|
                call_ensures(*content, (command, current), Ok::<Item, ItemRepositoryError>(created))
                    ==> created.id == command.spec_target(),
            freed_items(initial_by_id@, commands@, commands@.len() as int, base),
            forall|id: Uuid| #[trigger]
                pending_create_ids@.contains(id) <==> created_before(
                    commands@,
                    index as int,
                    id,
                ),
            forall|id: Uuid| #[trigger]
                items@.contains_key(id) <==> initial_by_id@.contains_key(id)
                    || pending_create_ids@.contains(id),
            forall|id: Uuid| #[trigger]
                initial_by_id@.contains_key(id) ==> !pending_create_ids@.contains(id) && items@[id]
                    == base[id],
            forall|k: int|
                0 <= k < index && (#[trigger] commands@[k]) is CreateItem ==> shell_of(
                    *policy,
                    *content,
                    commands@[k],
                    items@[commands@[k].spec_target()],
                ),
            replaced_are_live(commands@, commands@.len() as int, initial_by_id@),
            forall|k: int|
                0 <= k < index && (#[trigger] commands@[k]) is CreateItem ==> !created_twice(
                    commands@,
                    k,
                    initial_by_id@,
                ),
        decreases commands.len() - index,
    {
        let ghost items_before = items@;
        let ghost pending_before = pending_create_ids@;
        match &commands[index] {
            ProposalCommand::CreateItem { item, .. } => {
                let created: Item = match content(&commands[index], None) {
                    Ok(created) => created,
                    Err(error) => {
                        return Err((index, error));
                    },
                };
                let ghost made = created;
                let shell: Item = staged_item_shell(policy, created);
                let id: Uuid = shell.id;
                assert(id == commands@[index as int].spec_target());
                if items.contains_key(&id) || pending_create_ids.contains(&item.id) {
                    return Err((index, ItemRepositoryError::Duplicate(item.id)));
                }
                assert(shell_of(*policy, *content, commands@[index as int], shell)) by {
                    assert(shell_fits(*policy, made, shell));
                }
                items.insert(id, shell);
                pending_create_ids.insert(item.id);
                assert(creates(commands@[index as int], id));
            },
            _ => {},
        }
        proof {
            let now = index as int;
            assert forall|id: Uuid| #[trigger]
                pending_create_ids@.contains(id) <==> created_before(commands@, now + 1, id) by {
                if created_before(commands@, now + 1, id) {
                    let k = choose|k: int| 0 <= k < now + 1 && creates(#[trigger] commands@[k], id);
                    if k < now {
                        assert(created_before(commands@, now, id));
                    }
                }
                if created_before(commands@, now, id) {
                    let k = choose|k: int| 0 <= k < now && creates(#[trigger] commands@[k], id);
                    assert(created_before(commands@, now + 1, id));
                }
                if creates(commands@[now], id) {
                    assert(created_before(commands@, now + 1, id));
                }
            }
            assert forall|k: int|
                0 <= k < now + 1 && (#[trigger] commands@[k]) is CreateItem implies shell_of(
                *policy,
                *content,
                commands@[k],
                items@[commands@[k].spec_target()],
            ) by {
                if k < now {
                    let id = commands@[k].spec_target();
                    assert(creates(commands@[k], id));
                    assert(created_before(commands@, now, id));
                    assert(pending_before.contains(id));
                    assert(items_before.contains_key(id));
                    assert(items@[id] == items_before[id]);
                }
            }
        }
        index = index + 1;
    }
    Ok(ProjectedBatchState { items, pending_create_ids })
}

/// The item that a command changes, if it is there in the state that the command needs.
pub open spec fn command_current(command: ProposalCommand, items: Map<Uuid, Item>) -> Option<Item> {
    match command {
        ProposalCommand::CreateItem { .. } => None,
        _ => Some(items[command.spec_target()]),
    }
}

/// Why a command is refused before the rules for item content are asked.
pub open spec fn early_refusal(
    policy: ItemPolicy,
    command: ProposalCommand,
    state: BatchView,
) -> Option<ItemRepositoryError> {
    let items = state.items;
    let id = command.spec_target();
    match command {
        ProposalCommand::CreateItem { .. } => if state.pending.contains(id) {
            None
        } else {
            Some(ItemRepositoryError::Duplicate(id))
        },
        ProposalCommand::ReplaceItem { .. } => if crate::items::hierarchy::live(items, id) {
            None
        } else {
            Some(ItemRepositoryError::NotFound(id))
        },
        ProposalCommand::TrashItem { .. } => if !crate::items::hierarchy::live(items, id) {
            Some(ItemRepositoryError::NotFound(id))
        } else if crate::items::hierarchy::has_live_child(items, id) {
            Some(ItemRepositoryError::HasChildren)
        } else {
            None
        },
        ProposalCommand::RestoreItem { .. } => if !items.contains_key(id) || items[id].deleted_at
            is None {
            Some(ItemRepositoryError::NotFound(id))
        } else {
            crate::items::commands::restored_parent_refusal(policy, items, id, items[id].parent_id)
        },
    }
}

/// Why what the rules for item content make of an item is refused.
pub open spec fn late_refusal(
    policy: ItemPolicy,
    command: ProposalCommand,
    items: Map<Uuid, Item>,
    made: Item,
) -> Option<ItemRepositoryError> {
    let id = command.spec_target();
    match command {
        ProposalCommand::CreateItem { .. } => crate::items::commands::first_refusal(
            crate::items::commands::error_of(
                crate::items::hierarchy::parent_check(policy, items, made.id, made.parent_id),
            ),
            crate::items::commands::error_of(
                crate::items::hierarchy::blocker_check(items, made.blocked_by_item_id),
            ),
        ),
        ProposalCommand::ReplaceItem { .. } => crate::items::commands::first_refusal(
            crate::items::commands::error_of(
                crate::items::hierarchy::parent_check(policy, items, id, made.parent_id),
            ),
            crate::items::commands::first_refusal(
                crate::items::commands::error_of(
                    crate::items::hierarchy::blocker_check(items, made.blocked_by_item_id),
                ),
                crate::items::commands::leaf_refusal(policy, items, id, made),
            ),
        ),
        ProposalCommand::TrashItem { .. } => None,
        ProposalCommand::RestoreItem { .. } => crate::items::commands::leaf_refusal(
            policy,
            items,
            id,
            made,
        ),
    }
}

/// The items once an item is in its place: whether work on it can start follows from
/// whether it has live children there.
pub open spec fn placed(policy: ItemPolicy, items: Map<Uuid, Item>, made: Item) -> Map<Uuid, Item> {
    let standing = items.insert(made.id, made);
    standing.insert(
        made.id,
        Item {
            is_executable: policy.execution_allowed(
                made.kind,
                made.has_own_effort,
                made.deleted_at is Some,
                crate::items::hierarchy::has_live_child(standing, made.id),
            ),
            ..made
        },
    )
}

/// Whether `id` is a parent whose execution state a command has to derive anew.
pub open spec fn parent_to_refresh(
    command: ProposalCommand,
    items: Map<Uuid, Item>,
    made: Item,
    id: Uuid,
) -> bool {
    match command {
        ProposalCommand::ReplaceItem { item_id, .. } => {
            &&& crate::items::commands::moved(items[item_id], made)
            &&& crate::items::commands::parents_of(items[item_id].parent_id, made.parent_id, id)
        },
        ProposalCommand::TrashItem { item_id, .. } => items[item_id].parent_id == Some(id),
        _ => made.parent_id == Some(id),
    }
}

/// Whether `after` are the items once the execution state of a live parent was derived
/// anew.
pub open spec fn parent_refreshed<R: Fn(&Item, bool) -> Result<Item, ItemRepositoryError>>(
    refresh: R,
    before: Map<Uuid, Item>,
    id: Uuid,
    after: Map<Uuid, Item>,
) -> bool {
    &&& crate::items::hierarchy::live(before, id)
    &&& call_ensures(
        refresh,
        (&before[id], crate::items::hierarchy::has_live_child(before, id)),
        Ok::<Item, ItemRepositoryError>(after[id]),
    )
    &&& after == before.insert(id, after[id])
}

/// Whether `states` are the items before and after each of the parents was refreshed.
pub open spec fn refresh_passes<R: Fn(&Item, bool) -> Result<Item, ItemRepositoryError>>(
    refresh: R,
    parents: Seq<Uuid>,
    states: Seq<Map<Uuid, Item>>,
) -> bool {
    &&& states.len() == parents.len() + 1
    &&& forall|k: int|
        #![trigger parents[k]]
        0 <= k < parents.len() ==> parent_refreshed(refresh, states[k], parents[k], states[k + 1])
}

/// Whether refreshing the parents, one after the other, can lead from some items to
/// others.
pub open spec fn refreshes<R: Fn(&Item, bool) -> Result<Item, ItemRepositoryError>>(
    refresh: R,
    from: Map<Uuid, Item>,
    parents: Seq<Uuid>,
    to: Map<Uuid, Item>,
) -> bool {
    exists|states: Seq<Map<Uuid, Item>>| #[trigger]
        refresh_passes(refresh, parents, states) && states[0] == from
            && states[parents.len() as int] == to
}

/// Whether refreshing the parents can fail with an error: one of them is not live, or
/// its execution state cannot be derived.
pub open spec fn refresh_fails<R: Fn(&Item, bool) -> Result<Item, ItemRepositoryError>>(
    refresh: R,
    from: Map<Uuid, Item>,
    parents: Seq<Uuid>,
    error: ItemRepositoryError,
) -> bool {
    exists|k: int, mid: Map<Uuid, Item>|
        0 <= k < parents.len() && #[trigger] refreshes(refresh, from, parents.take(k), mid) && {
            ||| {
                &&& !crate::items::hierarchy::live(mid, parents[k])
                &&& error == ItemRepositoryError::ParentNotFound(parents[k])
            }
            ||| {
                &&& crate::items::hierarchy::live(mid, parents[k])
                &&& call_ensures(
                    refresh,
                    (&mid[parents[k]], crate::items::hierarchy::has_live_child(mid, parents[k])),
                    Err::<Item, ItemRepositoryError>(error),
                )
            }
        }
}

proof fn lemma_refresh_start<R: Fn(&Item, bool) -> Result<Item, ItemRepositoryError>>(
    refresh: R,
    from: Map<Uuid, Item>,
    parents: Seq<Uuid>,
)
    ensures
        refreshes(refresh, from, parents.take(0), from),
{
    let states = seq![from];
    assert(refresh_passes(refresh, parents.take(0), states));
}

proof fn lemma_refresh_push<R: Fn(&Item, bool) -> Result<Item, ItemRepositoryError>>(
    refresh: R,
    from: Map<Uuid, Item>,
    parents: Seq<Uuid>,
    k: int,
    mid: Map<Uuid, Item>,
    to: Map<Uuid, Item>,
)
    requires
        0 <= k < parents.len(),
        refreshes(refresh, from, parents.take(k), mid),
        parent_refreshed(refresh, mid, parents[k], to),
    ensures
        refreshes(refresh, from, parents.take(k + 1), to),
{
    let states = choose|states: Seq<Map<Uuid, Item>>| #[trigger]
        refresh_passes(refresh, parents.take(k), states) && states[0] == from && states[k] == mid;
    let longer = states.push(to);
    let more = parents.take(k + 1);
    assert forall|j: int|
        #![trigger more[j]]
        0 <= j < more.len() implies parent_refreshed(refresh, longer[j], more[j], longer[j + 1]) by {
        assert(more[j] == parents[j]);
        if j < k {
            assert(parents.take(k)[j] == parents[j]);
        }
    }
    assert(refresh_passes(refresh, more, longer));
}

/// Derives the execution state of the parents anew, one after the other.
pub fn refresh_projected_parents<R: Fn(&Item, bool) -> Result<Item, ItemRepositoryError>>(
    refresh: &R,
    items: &mut BTreeMap<Uuid, Item>,
    parents: &Vec<Uuid>,
) -> (result: Result<(), ItemRepositoryError>)
    requires
        forall|item: &Item, has_children: bool| call_requires(*refresh, (item, has_children)),
    ensures
        match result {
            Ok(_) => refreshes(*refresh, old(items)@, parents@, final(items)@),
            Err(error) => refresh_fails(*refresh, old(items)@, parents@, error),
        },
{
    let ghost from = items@;
    proof {
        lemma_refresh_start(*refresh, from, parents@);
    }
    let mut i: usize = 0;
    while i < parents.len()
        invariant
            i <= parents.len(),
            from == old(items)@,
            forall|item: &Item, has_children: bool| call_requires(*refresh, (item, has_children)),
            refreshes(*refresh, from, parents@.take(i as int), items@),
        decreases parents.len() - i,
    {
        let parent_id: Uuid = parents[i];
        let ghost mid = items@;
        let has_children: bool = projected_has_active_children(parent_id, items);
        let refreshed: Item = match items.get(&parent_id) {
            Some(current) => {
                if current.deleted_at.is_some() {
                    assert(!crate::items::hierarchy::live(mid, parents@[i as int]));
                    return Err(ItemRepositoryError::ParentNotFound(parent_id));
                }
                match refresh(current, has_children) {
                    Ok(refreshed) => refreshed,
                    Err(error) => {
                        assert(refreshes(*refresh, from, parents@.take(i as int), mid));
                        return Err(error);
                    },
                }
            },
            None => {
                assert(!crate::items::hierarchy::live(mid, parents@[i as int]));
                return Err(ItemRepositoryError::ParentNotFound(parent_id));
            },
        };
        items.insert(parent_id, refreshed);
        proof {
            assert(items@ =~= mid.insert(parent_id, items@[parent_id]));
            assert(parent_refreshed(*refresh, mid, parents@[i as int], items@));
            lemma_refresh_push(*refresh, from, parents@, i as int, mid, items@);
        }
        i = i + 1;
    }
    assert(parents@.take(i as int) =~= parents@);
    Ok(())
}

/// Whether `parents` are the parents whose execution state a command has to derive anew,
/// in increasing order.
pub open spec fn parents_fit(
    command: ProposalCommand,
    items: Map<Uuid, Item>,
    made: Item,
    parents: Seq<Uuid>,
) -> bool {
    &&& crate::ids::increasing(parents)
    &&& forall|id: Uuid| parents.contains(id) <==> parent_to_refresh(command, items, made, id)
}

/// Whether the rules for item content can make `outcome` of the item of a command.
pub open spec fn content_gives<
    C: Fn(&ProposalCommand, Option<&Item>) -> Result<Item, ItemRepositoryError>,
>(
    content: C,
    command: ProposalCommand,
    items: Map<Uuid, Item>,
    outcome: Result<Item, ItemRepositoryError>,
) -> bool {
    match command_current(command, items) {
        None => call_ensures(content, (&command, None::<&Item>), outcome),
        Some(current) => call_ensures(content, (&command, Some(&current)), outcome),
    }
}

/// Whether a command is accepted with the item `made`, before its effect on other items
/// is looked at.
pub open spec fn accepted<
    C: Fn(&ProposalCommand, Option<&Item>) -> Result<Item, ItemRepositoryError>,
>(
    policy: ItemPolicy,
    content: C,
    command: ProposalCommand,
    state: BatchView,
    made: Item,
) -> bool {
    &&& early_refusal(policy, command, state) is None
    &&& content_gives(content, command, state.items, Ok::<Item, ItemRepositoryError>(made))
    &&& late_refusal(policy, command, state.items, made) is None
}

/// Whether a command can be refused with an error before its effect on other items is
/// looked at.
pub open spec fn acceptance_refused<
    C: Fn(&ProposalCommand, Option<&Item>) -> Result<Item, ItemRepositoryError>,
>(
    policy: ItemPolicy,
    content: C,
    command: ProposalCommand,
    state: BatchView,
    error: ItemRepositoryError,
) -> bool {
    match early_refusal(policy, command, state) {
        Some(refusal) => error == refusal,
        None => {
            ||| content_gives(
                content,
                command,
                state.items,
                Err::<Item, ItemRepositoryError>(error),
            )
            ||| exists|made: Item|
                {
                    &&& #[trigger] content_gives(
                        content,
                        command,
                        state.items,
                        Ok::<Item, ItemRepositoryError>(made),
                    )
                    &&& late_refusal(policy, command, state.items, made) == Some(error)
                }
        },
    }
}

/// What the rules for item content make of the item of a command.
fn made_item<
    C: Fn(&ProposalCommand, Option<&Item>) -> Result<Item, ItemRepositoryError>,
>(
    content: &C,
    command: &ProposalCommand,
    current: Option<&Item>,
    Ghost(items): Ghost<Map<Uuid, Item>>,
) -> (result: Result<Item, ItemRepositoryError>)
    requires
        forall|c: &ProposalCommand, item: Option<&Item>| call_requires(*content, (c, item)),
        match current {
            None => command_current(*command, items) is None,
            Some(item) => command_current(*command, items) == Some(*item),
        },
    ensures
        content_gives(*content, *command, items, result),
{
    content(command, current)
}

/// The item of a command and the parents whose execution state has to be derived anew,
/// or why the command is refused.
fn accept_command<
    C: Fn(&ProposalCommand, Option<&Item>) -> Result<Item, ItemRepositoryError>,
>(
    policy: &ItemPolicy,
    content: &C,
    command: &ProposalCommand,
    state: &ProjectedBatchState,
) -> (result: Result<(Item, Vec<Uuid>), ItemRepositoryError>)
    requires
        forall|c: &ProposalCommand, current: Option<&Item>| call_requires(*content, (c, current)),
    ensures
        match result {
            Ok((made, parents)) => accepted(*policy, *content, *command, state@, made)
                && parents_fit(*command, state.items@, made, parents@),
            Err(error) => acceptance_refused(*policy, *content, *command, state@, error),
        },
{
    let ghost items = state.items@;
    match command {
        ProposalCommand::CreateItem { item, .. } => {
            if !state.pending_create_ids.contains(&item.id) {
                return Err(ItemRepositoryError::Duplicate(item.id));
            }
            let made: Item = made_item(content, command, None, Ghost(items))?;
            validate_projected_parent(policy, &state.items, made.id, made.parent_id)?;
            validate_projected_blocker(&state.items, made.blocked_by_item_id)?;
            let parents: Vec<Uuid> = refreshed_parents(true, made.parent_id, None);
            Ok((made, parents))
        },
        ProposalCommand::ReplaceItem { item_id, .. } => {
            let current: &Item = match state.items.get(item_id) {
                Some(current) => current,
                None => {
                    return Err(ItemRepositoryError::NotFound(*item_id));
                },
            };
            if current.deleted_at.is_some() {
                return Err(ItemRepositoryError::NotFound(*item_id));
            }
            let made: Item = made_item(content, command, Some(current), Ghost(items))?;
            validate_projected_parent(policy, &state.items, *item_id, made.parent_id)?;
            validate_projected_blocker(&state.items, made.blocked_by_item_id)?;
            if projected_has_active_children(*item_id, &state.items) && policy.is_executing_state(
                made.status,
            ) {
                return Err(ItemRepositoryError::NonLeafExecutable);
            }
            let parents: Vec<Uuid> = refreshed_parents(
                current.parent_id != made.parent_id || current.sibling_order != made.sibling_order,
                current.parent_id,
                made.parent_id,
            );
            Ok((made, parents))
        },
        ProposalCommand::TrashItem { item_id, .. } => {
            let current: &Item = match state.items.get(item_id) {
                Some(current) => current,
                None => {
                    return Err(ItemRepositoryError::NotFound(*item_id));
                },
            };
            if current.deleted_at.is_some() {
                return Err(ItemRepositoryError::NotFound(*item_id));
            }
            if projected_has_active_children(*item_id, &state.items) {
                return Err(ItemRepositoryError::HasChildren);
            }
            let made: Item = made_item(content, command, Some(current), Ghost(items))?;
            let parents: Vec<Uuid> = refreshed_parents(true, current.parent_id, None);
            Ok((made, parents))
        },
        ProposalCommand::RestoreItem { item_id, .. } => {
            let current: &Item = match state.items.get(item_id) {
                Some(current) => current,
                None => {
                    return Err(ItemRepositoryError::NotFound(*item_id));
                },
            };
            if current.deleted_at.is_none() {
                return Err(ItemRepositoryError::NotFound(*item_id));
            }
            match validate_projected_parent(policy, &state.items, *item_id, current.parent_id) {
                Ok(_) => {},
                Err(ItemRepositoryError::ParentNotFound(_)) => {
                    return Err(ItemRepositoryError::DeletedParent);
                },
                Err(error) => {
                    return Err(error);
                },
            }
            let made: Item = made_item(content, command, Some(current), Ghost(items))?;
            if projected_has_active_children(*item_id, &state.items) && policy.is_executing_state(
                made.status,
            ) {
                return Err(ItemRepositoryError::NonLeafExecutable);
            }
            let parents: Vec<Uuid> = refreshed_parents(true, made.parent_id, None);
            Ok((made, parents))
        },
    }
}

/// Puts an item in its place.
fn place_item(policy: &ItemPolicy, items: &mut BTreeMap<Uuid, Item>, made: Item)
    ensures
        final(items)@ == placed(*policy, old(items)@, made),
{
    let ghost before = items@;
    let ghost item = made;
    let id: Uuid = made.id;
    items.insert(id, made);
    let has_children: bool = projected_has_active_children(id, items);
    match items.remove(&id) {
        Some(standing) => {
            let mut settled: Item = standing;
            settled.is_executable = policy.execution_is_allowed(&settled, has_children);
            items.insert(id, settled);
        },
        None => {},
    }
    assert(items@ =~= placed(*policy, before, item));
}

/// Whether `items` are the items that carrying out a command can lead to, before the
/// rule for the dependencies is asked.
pub open spec fn leads_to<
    C: Fn(&ProposalCommand, Option<&Item>) -> Result<Item, ItemRepositoryError>,
    R: Fn(&Item, bool) -> Result<Item, ItemRepositoryError>,
>(
    policy: ItemPolicy,
    content: C,
    refresh: R,
    command: ProposalCommand,
    state: BatchView,
    items: Map<Uuid, Item>,
) -> bool {
    exists|made: Item, parents: Seq<Uuid>|
        {
            &&& accepted(policy, content, command, state, made)
            &&& #[trigger] parents_fit(command, state.items, made, parents)
            &&& refreshes(refresh, placed(policy, state.items, made), parents, items)
        }
}

/// Whether the rule for the dependencies can have this outcome on some items.
pub open spec fn graph_gives<G: Fn(&BTreeMap<Uuid, Item>) -> Result<(), ItemRepositoryError>>(
    graph: G,
    items: Map<Uuid, Item>,
    outcome: Result<(), ItemRepositoryError>,
) -> bool {
    exists|tree: BTreeMap<Uuid, Item>|
        tree@ == items && #[trigger] call_ensures(graph, (&tree,), outcome)
}

/// Whether `next` is the batch once a command was carried out.
pub open spec fn projects<
    C: Fn(&ProposalCommand, Option<&Item>) -> Result<Item, ItemRepositoryError>,
    R: Fn(&Item, bool) -> Result<Item, ItemRepositoryError>,
    G: Fn(&BTreeMap<Uuid, Item>) -> Result<(), ItemRepositoryError>,
>(
    policy: ItemPolicy,
    content: C,
    refresh: R,
    graph: G,
    command: ProposalCommand,
    state: BatchView,
    next: BatchView,
) -> bool {
    &&& leads_to(policy, content, refresh, command, state, next.items)
    &&& graph_gives(graph, next.items, Ok::<(), ItemRepositoryError>(()))
    &&& next.pending == (match command {
        ProposalCommand::CreateItem { .. } => state.pending.remove(
            command.spec_target(),
        ),
        _ => state.pending,
    })
}

/// Whether a command can be refused with an error.
pub open spec fn projection_refused<
    C: Fn(&ProposalCommand, Option<&Item>) -> Result<Item, ItemRepositoryError>,
    R: Fn(&Item, bool) -> Result<Item, ItemRepositoryError>,
    G: Fn(&BTreeMap<Uuid, Item>) -> Result<(), ItemRepositoryError>,
>(
    policy: ItemPolicy,
    content: C,
    refresh: R,
    graph: G,
    command: ProposalCommand,
    state: BatchView,
    error: ItemRepositoryError,
) -> bool {
    ||| acceptance_refused(policy, content, command, state, error)
    ||| exists|made: Item, parents: Seq<Uuid>|
        {
            &&& accepted(policy, content, command, state, made)
            &&& #[trigger] parents_fit(command, state.items, made, parents)
            &&& refresh_fails(refresh, placed(policy, state.items, made), parents, error)
        }
    ||| exists|items: Map<Uuid, Item>|
        {
            &&& #[trigger] leads_to(policy, content, refresh, command, state, items)
            &&& graph_gives(graph, items, Err::<(), ItemRepositoryError>(error))
        }
}

/// The batch once a command was carried out, or why the command is refused.
///
/// `content` is what the rules for item content make of the item of the command,
/// `refresh` the rule by which the execution state of a parent is derived from whether
/// it has live children, and `graph` the rule for the dependencies between all items.
pub fn project_command_for_ordering<
    C: Fn(&ProposalCommand, Option<&Item>) -> Result<Item, ItemRepositoryError>,
    R: Fn(&Item, bool) -> Result<Item, ItemRepositoryError>,
    G: Fn(&BTreeMap<Uuid, Item>) -> Result<(), ItemRepositoryError>,
>(
    policy: &ItemPolicy,
    content: &C,
    refresh: &R,
    graph: &G,
    command: &ProposalCommand,
    state: &ProjectedBatchState,
) -> (result: Result<ProjectedBatchState, ItemRepositoryError>)
    requires
        forall|c: &ProposalCommand, current: Option<&Item>| call_requires(*content, (c, current)),
        forall|item: &Item, has_children: bool| call_requires(*refresh, (item, has_children)),
        forall|items: &BTreeMap<Uuid, Item>| call_requires(*graph, (items,)),
    ensures
        match result {
            Ok(next) => projects(*policy, *content, *refresh, *graph, *command, state@, next@),
            Err(error) => projection_refused(
                *policy,
                *content,
                *refresh,
                *graph,
                *command,
                state@,
                error,
            ),
        },
{
    let (made, parents): (Item, Vec<Uuid>) = accept_command(policy, content, command, state)?;
    let ghost item = made;
    let mut items: BTreeMap<Uuid, Item> = state.items.clone();
    place_item(policy, &mut items, made);
    match refresh_projected_parents(refresh, &mut items, &parents) {
        Ok(_) => {},
        Err(error) => {
            assert(parents_fit(*command, state.items@, item, parents@));
            return Err(error);
        },
    }
    assert(leads_to(*policy, *content, *refresh, *command, state@, items@)) by {
        assert(parents_fit(*command, state.items@, item, parents@));
    }
    match graph(&items) {
        Ok(settled) => {
            assert(settled == ());
        },
        Err(error) => {
            return Err(error);
        },
    }
    let mut pending_create_ids: BTreeSet<Uuid> = state.pending_create_ids.clone();
    match command {
        ProposalCommand::CreateItem { item, .. } => {
            pending_create_ids.remove(&item.id);
        },
        _ => {},
    }
    Ok(ProjectedBatchState { items, pending_create_ids })
}

/// When the dependency graph is validated while a batch is carried out: a single command
/// on an item that is there is validated at once, anything else at the end, with the new
/// items staged first.
pub fn batch_graph_mode(commands: &Vec<ProposalCommand>) -> (result: TransactionalGraphMode)
    ensures
        result == (if commands@.len() == 1 && !(commands@[0] is CreateItem) {
            TransactionalGraphMode::Immediate
        } else {
            TransactionalGraphMode::DeferredWithStagedCreates
        }),
{
    if commands.len() == 1 {
        match &commands[0] {
            ProposalCommand::CreateItem { .. } => TransactionalGraphMode::DeferredWithStagedCreates,
            _ => TransactionalGraphMode::Immediate,
        }
    } else {
        TransactionalGraphMode::DeferredWithStagedCreates
    }
}

/// The items whose predecessors are taken away before a batch is carried out: those that
/// are replaced, in the order of the commands.
pub open spec fn replaced_targets(commands: Seq<ProposalCommand>) -> Seq<Uuid>
    decreases commands.len(),
{
    if commands.len() == 0 {
        Seq::empty()
    } else {
        let before = replaced_targets(commands.drop_last());
        if commands.last() is ReplaceItem {
            before.push(commands.last().spec_target())
        } else {
            before
        }
    }
}

/// The items whose predecessors are taken away before a batch is carried out.
pub fn replaced_dependency_targets(commands: &Vec<ProposalCommand>) -> (result: Vec<Uuid>)
    ensures
        result@ == replaced_targets(commands@),
{
    let mut ids: Vec<Uuid> = Vec::new();
    let mut i: usize = 0;
    while i < commands.len()
        invariant
            i <= commands.len(),
            ids@ == replaced_targets(commands@.take(i as int)),
        decreases commands.len() - i,
    {
        proof {
            assert(commands@.take(i + 1).drop_last() =~= commands@.take(i as int));
            assert(commands@.take(i + 1).last() == commands@[i as int]);
        }
        match &commands[i] {
            ProposalCommand::ReplaceItem { item_id, .. } => {
                ids.push(*item_id);
            },
            _ => {},
        }
        i = i + 1;
    }
    assert(commands@.take(i as int) =~= commands@);
    ids
}

/// The command that a failed validation of the whole graph is reported for: the first
/// that replaces an item, or else the first.
pub fn graph_conflict_index(commands: &Vec<ProposalCommand>) -> (result: usize)
    ensures
        if exists|k: int| 0 <= k < commands@.len() && (#[trigger] commands@[k]) is ReplaceItem {
            &&& result < commands@.len()
            &&& commands@[result as int] is ReplaceItem
            &&& forall|k: int| 0 <= k < result ==> !((#[trigger] commands@[k]) is ReplaceItem)
        } else {
            result == 0
        },
{
    let mut i: usize = 0;
    while i < commands.len()
        invariant
            i <= commands.len(),
            forall|k: int| 0 <= k < i ==> !((#[trigger] commands@[k]) is ReplaceItem),
        decreases commands.len() - i,
    {
        match &commands[i] {
            ProposalCommand::ReplaceItem { .. } => {
                return i;
            },
            _ => {},
        }
        i = i + 1;
    }
    0
}

} // verus!
