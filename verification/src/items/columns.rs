//! That what is stored of items is what they are, and what is recorded of them tells it.
use vstd::prelude::*;

use crate::items::commands::TransactionalItemCommand;
use crate::items::completion::{restorable, state_at, state_same, ItemCompletionState};
use crate::items::dependencies::{entries_for, first_missing_predecessor};
use crate::items::model::{Dependency, Item, ItemPolicy, ItemRepositoryError};
use crate::items::projection::{start_refused, BatchView};
use crate::items::storage::{
    columns_fit, event_key, item_reads, item_storable, ItemColumns, ItemRow,
};
use crate::proposals::application::ProposalCommand;
use crate::time::{Instant, Uuid};

verus! {

/// Whether a stored number is this one, or there is none.
pub open spec fn holds_number(column: Option<i32>, value: Option<u32>) -> bool {
    column is Some == value is Some && (value is Some ==> column->0 == value->0)
}

/// Each column of an item holds the part of the item that it is called. An item that is read
/// can be worked on if its kind allows it, it is not in the trash and it has no children.
pub proof fn columns_of_an_item_hold_its_parts(policy: ItemPolicy, item: Item, row: ItemRow)
    requires
        item_reads(policy, item, row),
    ensures
        row.id == item.id,
        row.is_sensitive == item.is_sensitive,
        row.kind@ == crate::items::names::kind_name_text(item.kind),
        row.status@ == crate::items::names::status_name_text(item.status),
        row.title == item.title,
        row.notes == item.notes,
        row.timezone_name == item.timezone_name,
        row.duration_kind@ == crate::items::names::duration_kind_name_text(item.duration_kind),
        holds_number(row.duration_seconds, item.duration_seconds),
        holds_number(row.duration_min_seconds, item.duration_min_seconds),
        holds_number(row.duration_max_seconds, item.duration_max_seconds),
        row.duration_source is Some == item.duration_source is Some,
        item.duration_source is Some ==> row.duration_source->0@
            == crate::items::names::duration_source_name_text(item.duration_source->0),
        row.deadline_kind@ == crate::items::names::deadline_kind_name_text(item.deadline_kind),
        row.deadline_date == item.deadline_date,
        row.deadline_at == item.deadline_at,
        row.deadline_strength is Some == item.deadline_strength is Some,
        item.deadline_strength is Some ==> row.deadline_strength->0@
            == crate::items::names::deadline_strength_name_text(item.deadline_strength->0),
        holds_number(row.deadline_soft_weight, item.deadline_soft_weight),
        row.earliest_start_at == item.earliest_start_at,
        row.recurrence == item.recurrence,
        row.constraints == item.constraints,
        row.dependencies == Some(item.dependencies),
        row.has_own_effort == item.has_own_effort,
        row.split_allowed == (item.split_policy is Splittable),
        item.split_policy is Splittable ==> row.minimum_chunk_seconds is Some
            && row.minimum_chunk_seconds->0 == item.split_policy->minimum_chunk_seconds
            && row.maximum_chunk_seconds is Some && row.maximum_chunk_seconds->0
            == item.split_policy->maximum_chunk_seconds,
        row.importance == item.importance,
        row.urgency == item.urgency,
        row.parent_item_id == item.parent_id,
        row.effective_sibling_order == item.sibling_order,
        row.blocked_reason_kind is Some == item.blocked_reason_kind is Some,
        row.blocked_by_item_id == item.blocked_by_item_id,
        row.blocked_reason == item.blocked_reason,
        row.revision == item.revision,
        row.created_at == item.created_at,
        row.updated_at == item.updated_at,
        row.completed_at == item.completed_at,
        row.trashed_at == item.deleted_at,
        item.is_executable <==> policy.executable@.contains((item.kind, item.has_own_effort))
            && item.deleted_at is None && !row.has_children,
{
}

/// The columns that are written for an item are its parts, and an item can be stored exactly
/// if its numbers fit them.
pub proof fn columns_are_written_from_the_parts(item: Item, columns: ItemColumns)
    ensures
        columns_fit(item, columns) ==> {
            &&& columns.kind@ == crate::items::names::kind_name_text(item.kind)
            &&& columns.status@ == crate::items::names::status_name_text(item.status)
            &&& columns.duration_kind@ == crate::items::names::duration_kind_name_text(
                item.duration_kind,
            )
            &&& holds_number(columns.duration_seconds, item.duration_seconds)
            &&& holds_number(columns.duration_min_seconds, item.duration_min_seconds)
            &&& holds_number(columns.duration_max_seconds, item.duration_max_seconds)
            &&& columns.duration_source is Some == item.duration_source is Some
            &&& columns.deadline_kind@ == crate::items::names::deadline_kind_name_text(
                item.deadline_kind,
            )
            &&& columns.deadline_strength is Some == item.deadline_strength is Some
            &&& holds_number(columns.deadline_soft_weight, item.deadline_soft_weight)
            &&& columns.split_allowed == (item.split_policy is Splittable)
            &&& item.split_policy is Splittable ==> columns.minimum_chunk_seconds is Some
                && columns.minimum_chunk_seconds->0 == item.split_policy->minimum_chunk_seconds
                && columns.maximum_chunk_seconds is Some && columns.maximum_chunk_seconds->0
                == item.split_policy->maximum_chunk_seconds
            &&& columns.importance == item.importance
            &&& columns.urgency == item.urgency
            &&& columns.revision == item.revision
            &&& columns.sibling_order == item.sibling_order
            &&& columns.blocked_reason_kind is Some == item.blocked_reason_kind is Some
        },
        item_storable(item) <==> {
            &&& item.duration_seconds is Some ==> item.duration_seconds->0 <= 2_147_483_647
            &&& item.duration_min_seconds is Some ==> item.duration_min_seconds->0 <= 2_147_483_647
            &&& item.duration_max_seconds is Some ==> item.duration_max_seconds->0 <= 2_147_483_647
            &&& item.deadline_soft_weight is Some ==> item.deadline_soft_weight->0 <= 2_147_483_647
            &&& item.split_policy is Splittable ==> item.split_policy->minimum_chunk_seconds
                <= 2_147_483_647 && item.split_policy->maximum_chunk_seconds <= 2_147_483_647
            &&& item.sibling_order <= 2_147_483_647
        },
{
}

proof fn lemma_hex_length(bytes: Seq<u8>)
    ensures
        crate::hashing::hex_text(bytes).len() == 2 * bytes.len(),
    decreases bytes.len(),
{
    if bytes.len() > 0 {
        lemma_hex_length(bytes.drop_last());
    }
}

proof fn lemma_id_length(id: Uuid)
    ensures
        crate::outside::text_of_uuid(id).len() == 36,
{
    crate::hashing::be_bytes_length(id as nat, 16);
    lemma_hex_length(crate::hashing::be_bytes(id as nat, 16));
}

proof fn lemma_colon()
    ensures
        ":"@.len() == 1,
{
    reveal_strlit(":");
}

/// The keys under which subscribers are told of an event tell the changes apart: the same
/// event has the same key only for the same thing at the same revision.
pub proof fn keys_tell_changes_apart(
    event: Seq<char>,
    a: Uuid,
    a_revision: u64,
    b: Uuid,
    b_revision: u64,
)
    requires
        event_key(event, a, a_revision) == event_key(event, b, b_revision),
    ensures
        crate::outside::text_of_uuid(a) == crate::outside::text_of_uuid(b),
        a_revision == b_revision,
{
    lemma_id_length(a);
    lemma_id_length(b);
    lemma_colon();
    let x = event_key(event, a, a_revision);
    let y = event_key(event, b, b_revision);
    let n = event.len() as int + 1;
    assert(x.subrange(n, n + 36) =~= crate::outside::text_of_uuid(a));
    assert(y.subrange(n, n + 36) =~= crate::outside::text_of_uuid(b));
    assert(x.skip(n + 37) =~= crate::text::decimal_text(a_revision as nat));
    assert(y.skip(n + 37) =~= crate::text::decimal_text(b_revision as nat));
    crate::ground_rules::numbers_are_read_back_from_their_digits(a_revision as nat);
    crate::ground_rules::numbers_are_read_back_from_their_digits(b_revision as nat);
}

/// A former completion state comes back only to the item that it is of, for the change that
/// the item has just gone through.
pub proof fn states_come_back_to_their_item(
    snapshot: ItemCompletionState,
    before: Item,
    after: Item,
)
    ensures
        restorable(snapshot, before, after) <==> snapshot.item_id == after.id && before.id
            == after.id && after.revision == before.revision + 1,
{
}

/// A state that comes back keeps what it says under another revision and time of change, and
/// states agree exactly if all that they say agrees.
pub proof fn states_keep_what_they_say(
    state: ItemCompletionState,
    revision: u64,
    updated_at: Option<Instant>,
    other: ItemCompletionState,
)
    ensures
        ({
            let moved = state_at(state, revision, updated_at);
            &&& moved.revision == revision
            &&& moved.updated_at == updated_at
            &&& moved.item_id == state.item_id
            &&& moved.automatic == state.automatic
            &&& moved.required_for_parent == state.required_for_parent
            &&& moved.provenance == state.provenance
            &&& moved.details == state.details
        }),
        state_same(state, other) <==> {
            &&& state.item_id == other.item_id
            &&& state.revision == other.revision
            &&& state.updated_at == other.updated_at
            &&& state.automatic == other.automatic
            &&& state.required_for_parent == other.required_for_parent
            &&& crate::json::optional_json_same(state.provenance, other.provenance)
            &&& crate::json::json_same(state.details, other.details)
        },
{
}

/// The predecessor that is told to be missing is named by the item and is not there, and every
/// one with a smaller identifier is there.
pub proof fn missing_predecessors_are_missing(
    items: Map<Uuid, Item>,
    item_id: Uuid,
    dependencies: Seq<Dependency>,
    id: Uuid,
    k: int,
)
    requires
        first_missing_predecessor(items, item_id, dependencies, id),
    ensures
        !items.contains_key(id),
        id != item_id,
        exists|j: int| 0 <= j < dependencies.len() && (#[trigger] dependencies[j]).item_id == id,
        0 <= k < dependencies.len() && dependencies[k].item_id < id ==> items.contains_key(
            dependencies[k].item_id,
        ) || dependencies[k].item_id == item_id,
{
}

/// An entry for a predecessor is one of its entries, and no other is.
pub proof fn entries_are_those_of_their_predecessor(
    dependencies: Seq<Dependency>,
    id: Uuid,
    entry: Dependency,
)
    ensures
        entries_for(dependencies, id).contains(entry) <==> dependencies.contains(entry)
            && entry.item_id == id,
    decreases dependencies.len(),
{
    reveal(Seq::filter);
    let keep = |dependency: Dependency| dependency.item_id == id;
    if dependencies.len() > 0 {
        let first = dependencies.drop_last();
        let last = dependencies.last();
        entries_are_those_of_their_predecessor(first, id, entry);
        let some = entries_for(first, id);
        assert(entries_for(dependencies, id) == if keep(last) {
            some.push(last)
        } else {
            some
        });
        assert(dependencies =~= first.push(last));
        lemma_pushed(first, last, entry);
        lemma_pushed(some, last, entry);
    }
}

proof fn lemma_pushed<A>(values: Seq<A>, last: A, value: A)
    ensures
        values.push(last).contains(value) == (values.contains(value) || value == last),
{
    let more = values.push(last);
    assert(more[values.len() as int] == last);
    if values.contains(value) {
        let k = choose|k: int| 0 <= k < values.len() && values[k] == value;
        assert(more[k] == value);
    }
    if more.contains(value) {
        let k = choose|k: int| 0 <= k < more.len() && more[k] == value;
        if k < values.len() {
            assert(values[k] == value);
        }
    }
}

/// A batch that cannot begin is refused for one of its commands: it replaces an item that is
/// not there or in the trash, it creates one that is there or that a command before it
/// creates, or the rules for item content refuse what it creates.
pub proof fn refusal_to_begin_is_true<
    C: Fn(&ProposalCommand, Option<&Item>) -> Result<Item, ItemRepositoryError>,
>(
    content: C,
    commands: Seq<ProposalCommand>,
    initial: Map<Uuid, Item>,
    index: usize,
    error: ItemRepositoryError,
)
    requires
        start_refused(content, commands, initial, index, error),
    ensures
        index < commands.len(),
        ({
            let command = commands[index as int];
            let id = crate::items::foresight::item_of(command);
            ||| {
                &&& command is ReplaceItem
                &&& error == ItemRepositoryError::NotFound(id)
                &&& !(initial.contains_key(id) && initial[id].deleted_at is None)
            }
            ||| {
                &&& command is CreateItem
                &&& error == ItemRepositoryError::Duplicate(id)
                &&& initial.contains_key(id) || exists|k: int|
                    0 <= k < index && (#[trigger] commands[k]) is CreateItem
                        && crate::items::foresight::item_of(commands[k]) == id
            }
            ||| {
                &&& command is CreateItem
                &&& call_ensures(
                    content,
                    (&command, None::<&Item>),
                    Err::<Item, ItemRepositoryError>(error),
                )
            }
        }),
{
    let command = commands[index as int];
    let id = crate::items::foresight::item_of(command);
    if command is CreateItem && crate::items::projection::created_twice(
        commands,
        index as int,
        initial,
    ) && !initial.contains_key(id) {
        let k = choose|k: int|
            0 <= k < index && crate::items::projection::creates(#[trigger] commands[k], id);
        assert(commands[k] is CreateItem);
    }
}

/// When a batch begins, the items are those that are there and those that are to be created:
/// an item that is replaced has lost its predecessors and nothing else, any other item is as it
/// was, and a new one stands nowhere yet.
pub proof fn batches_begin_with_the_items_as_they_are<
    C: Fn(&ProposalCommand, Option<&Item>) -> Result<Item, ItemRepositoryError>,
>(
    policy: ItemPolicy,
    content: C,
    commands: Seq<ProposalCommand>,
    initial: Map<Uuid, Item>,
    state: BatchView,
    id: Uuid,
)
    requires
        crate::items::projection::batch_begins(policy, content, commands, initial, state),
    ensures
        state.pending.contains(id) <==> exists|k: int|
            0 <= k < commands.len() && (#[trigger] commands[k]) is CreateItem
                && crate::items::foresight::item_of(commands[k]) == id,
        state.items.contains_key(id) <==> initial.contains_key(id) || state.pending.contains(id),
        initial.contains_key(id) ==> state.items[id] == (Item {
            dependencies: state.items[id].dependencies,
            ..initial[id]
        }),
        initial.contains_key(id) && (forall|k: int|
            0 <= k < commands.len() && (#[trigger] commands[k]) is ReplaceItem
                ==> crate::items::foresight::item_of(commands[k]) != id) ==> state.items[id]
            == initial[id],
        initial.contains_key(id) && (exists|k: int|
            0 <= k < commands.len() && (#[trigger] commands[k]) is ReplaceItem
                && crate::items::foresight::item_of(commands[k]) == id)
            ==> state.items[id].dependencies@.len() == 0,
        state.pending.contains(id) ==> state.items[id].parent_id is None
            && state.items[id].dependencies@.len() == 0,
        forall|k: int|
            0 <= k < commands.len() && (#[trigger] commands[k]) is ReplaceItem
                ==> initial.contains_key(crate::items::foresight::item_of(commands[k]))
                && initial[crate::items::foresight::item_of(commands[k])].deleted_at is None,
        forall|k: int|
            0 <= k < commands.len() && (#[trigger] commands[k]) is CreateItem
                ==> !initial.contains_key(crate::items::foresight::item_of(commands[k])),
        forall|j: int, k: int|
            0 <= j < k < commands.len() && (#[trigger] commands[j]) is CreateItem && (
            #[trigger] commands[k]) is CreateItem ==> crate::items::foresight::item_of(commands[j])
                != crate::items::foresight::item_of(commands[k]),
{
    assert forall|j: int, k: int|
        0 <= j < k < commands.len() && (#[trigger] commands[j]) is CreateItem && (
        #[trigger] commands[k]) is CreateItem implies crate::items::foresight::item_of(commands[j])
        != crate::items::foresight::item_of(commands[k]) by {
        assert(!crate::items::projection::created_twice(commands, k, initial));
        assert(!crate::items::projection::creates(
            commands[j],
            crate::items::foresight::item_of(commands[k]),
        ));
    }
    assert(state.pending.contains(id) <==> crate::items::projection::created_before(
        commands,
        commands.len() as int,
        id,
    ));
    if crate::items::projection::created_before(commands, commands.len() as int, id) {
        let k = choose|k: int|
            0 <= k < commands.len() && crate::items::projection::creates(
                #[trigger] commands[k],
                id,
            );
        assert(commands[k] is CreateItem);
        let shell = state.items[commands[k].spec_target()];
        assert(crate::items::projection::shell_of(policy, content, commands[k], shell));
    }
    if exists|k: int|
        0 <= k < commands.len() && (#[trigger] commands[k]) is CreateItem
            && crate::items::foresight::item_of(commands[k]) == id {
        let k = choose|k: int|
            0 <= k < commands.len() && (#[trigger] commands[k]) is CreateItem
                && crate::items::foresight::item_of(commands[k]) == id;
        assert(crate::items::projection::creates(commands[k], id));
    }
    if initial.contains_key(id) {
        if crate::items::projection::replaced_before(commands, commands.len() as int, id) {
            let k = choose|k: int|
                0 <= k < commands.len() && crate::items::projection::replaces(
                    #[trigger] commands[k],
                    id,
                );
            assert(commands[k] is ReplaceItem);
        }
        if exists|k: int|
            0 <= k < commands.len() && (#[trigger] commands[k]) is ReplaceItem
                && crate::items::foresight::item_of(commands[k]) == id {
            let k = choose|k: int|
                0 <= k < commands.len() && (#[trigger] commands[k]) is ReplaceItem
                    && crate::items::foresight::item_of(commands[k]) == id;
            assert(crate::items::projection::replaces(commands[k], id));
        }
    }
}

/// The item that a command changes is the one that it names, and a creation changes none that
/// is there.
pub proof fn commands_change_the_item_they_name(command: TransactionalItemCommand)
    ensures
        match command {
            TransactionalItemCommand::Create(_) => crate::items::commands::changed_item(command)
                is None,
            TransactionalItemCommand::Replace { item_id, .. } => {
                crate::items::commands::changed_item(command) == Some(item_id)
            },
            TransactionalItemCommand::Trash { item_id, .. } => {
                crate::items::commands::changed_item(command) == Some(item_id)
            },
            TransactionalItemCommand::Restore { item_id, .. } => {
                crate::items::commands::changed_item(command) == Some(item_id)
            },
            TransactionalItemCommand::RestoreSnapshot { item_id, .. } => {
                crate::items::commands::changed_item(command) == Some(item_id)
            },
        },
{
}

} // verus!
