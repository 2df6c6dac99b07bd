//! That a review shows what changes, and every change.
use vstd::prelude::*;

use crate::items::model::{item_same, Item, ItemRepositoryError};
use crate::proposals::application::{
    ProposalCommand, ProposalConflict, ProposalConflictCode, ProposalItemField,
};
use crate::review::conflicts::{
    conflict_code, conflict_of, first_command_about, in_conflict_order, managed_conflicts,
};
use crate::review::diffs::{
    all_fields, changed_field_list, field_differs, implicit_changes, item_with_id,
};
use crate::time::Uuid;

verus! {

proof fn lemma_listed(
    before: Item,
    after: Item,
    fields: Seq<ProposalItemField>,
    field: ProposalItemField,
)
    ensures
        fields.filter(
            |candidate: ProposalItemField| field_differs(before, after, candidate),
        ).contains(field) == (fields.contains(field) && field_differs(before, after, field)),
    decreases fields.len(),
{
    reveal(Seq::filter);
    let keep = |candidate: ProposalItemField| field_differs(before, after, candidate);
    if fields.len() > 0 {
        let first = fields.drop_last();
        let last = fields.last();
        lemma_listed(before, after, first, field);
        let some = first.filter(keep);
        assert(fields.filter(keep) == if keep(last) {
            some.push(last)
        } else {
            some
        });
        assert(fields =~= first.push(last));
        lemma_pushed(first, last, field);
        lemma_pushed(some, last, field);
    }
}

proof fn lemma_pushed<A>(values: Seq<A>, last: A, value: A)
    ensures
        values.push(last).contains(value) == (values.contains(value) || value == last),
{
    let more = values.push(last);
    assert(more[values.len() as int] == last);
    if values.contains(value) {
        let k = choose|k: int| 0 <= k < values.len() && values[k] == value;
        assert(more[k] == value);
    }
    if more.contains(value) {
        let k = choose|k: int| 0 <= k < more.len() && more[k] == value;
        if k < values.len() {
            assert(values[k] == value);
        }
    }
}

/// The place of a field in a review.
spec fn place_of(field: ProposalItemField) -> int {
    match field {
        ProposalItemField::IsSensitive => 0,
        ProposalItemField::Kind => 1,
        ProposalItemField::Status => 2,
        ProposalItemField::Title => 3,
        ProposalItemField::Notes => 4,
        ProposalItemField::TimezoneName => 5,
        ProposalItemField::DurationKind => 6,
        ProposalItemField::DurationSeconds => 7,
        ProposalItemField::DurationMinSeconds => 8,
        ProposalItemField::DurationMaxSeconds => 9,
        ProposalItemField::DurationSource => 10,
        ProposalItemField::DeadlineKind => 11,
        ProposalItemField::DeadlineDate => 12,
        ProposalItemField::DeadlineAt => 13,
        ProposalItemField::DeadlineStrength => 14,
        ProposalItemField::DeadlineSoftWeight => 15,
        ProposalItemField::EarliestStartAt => 16,
        ProposalItemField::Recurrence => 17,
        ProposalItemField::FlexibleConstraints => 18,
        ProposalItemField::Dependencies => 19,
        ProposalItemField::HasOwnEffort => 20,
        ProposalItemField::SplitPolicy => 21,
        ProposalItemField::Importance => 22,
        ProposalItemField::Urgency => 23,
        ProposalItemField::ParentId => 24,
        ProposalItemField::SiblingOrder => 25,
        ProposalItemField::BlockedReasonKind => 26,
        ProposalItemField::BlockedByItemId => 27,
        ProposalItemField::BlockedReason => 28,
        ProposalItemField::IsExecutable => 29,
        ProposalItemField::Revision => 30,
        ProposalItemField::CompletedAt => 31,
        ProposalItemField::DeletedAt => 32,
    }
}

proof fn lemma_every_field(field: ProposalItemField)
    ensures
        all_fields().contains(field),
{
    assert(all_fields()[place_of(field)] == field);
}

/// A review points out exactly the fields in which an item changed, each for what it is.
pub proof fn changed_fields_are_pointed_out(before: Item, after: Item)
    ensures
        ({
            let list = changed_field_list(Some(before), Some(after));
            &&& list.contains(ProposalItemField::IsSensitive) <==> before.is_sensitive != after.is_sensitive
            &&& list.contains(ProposalItemField::Kind) <==> before.kind != after.kind
            &&& list.contains(ProposalItemField::Status) <==> before.status != after.status
            &&& list.contains(ProposalItemField::Title) <==> before.title@ != after.title@
            &&& list.contains(ProposalItemField::Notes) <==> (before.notes is Some != after.notes is Some || (before.notes is Some && before.notes->0@ != after.notes->0@))
            &&& list.contains(ProposalItemField::TimezoneName) <==> before.timezone_name@ != after.timezone_name@
            &&& list.contains(ProposalItemField::DurationKind) <==> before.duration_kind != after.duration_kind
            &&& list.contains(ProposalItemField::DurationSeconds) <==> before.duration_seconds != after.duration_seconds
            &&& list.contains(ProposalItemField::DurationMinSeconds) <==> before.duration_min_seconds != after.duration_min_seconds
            &&& list.contains(ProposalItemField::DurationMaxSeconds) <==> before.duration_max_seconds != after.duration_max_seconds
            &&& list.contains(ProposalItemField::DurationSource) <==> before.duration_source != after.duration_source
            &&& list.contains(ProposalItemField::DeadlineKind) <==> before.deadline_kind != after.deadline_kind
            &&& list.contains(ProposalItemField::DeadlineDate) <==> before.deadline_date != after.deadline_date
            &&& list.contains(ProposalItemField::DeadlineAt) <==> before.deadline_at != after.deadline_at
            &&& list.contains(ProposalItemField::DeadlineStrength) <==> before.deadline_strength != after.deadline_strength
            &&& list.contains(ProposalItemField::DeadlineSoftWeight) <==> before.deadline_soft_weight != after.deadline_soft_weight
            &&& list.contains(ProposalItemField::EarliestStartAt) <==> before.earliest_start_at != after.earliest_start_at
            &&& list.contains(ProposalItemField::HasOwnEffort) <==> before.has_own_effort != after.has_own_effort
            &&& list.contains(ProposalItemField::SplitPolicy) <==> before.split_policy != after.split_policy
            &&& list.contains(ProposalItemField::Importance) <==> before.importance != after.importance
            &&& list.contains(ProposalItemField::Urgency) <==> before.urgency != after.urgency
            &&& list.contains(ProposalItemField::ParentId) <==> before.parent_id != after.parent_id
            &&& list.contains(ProposalItemField::SiblingOrder) <==> before.sibling_order != after.sibling_order
            &&& list.contains(ProposalItemField::BlockedReasonKind) <==> before.blocked_reason_kind != after.blocked_reason_kind
            &&& list.contains(ProposalItemField::BlockedByItemId) <==> before.blocked_by_item_id != after.blocked_by_item_id
            &&& list.contains(ProposalItemField::BlockedReason) <==> (before.blocked_reason is Some != after.blocked_reason is Some || (before.blocked_reason is Some && before.blocked_reason->0@ != after.blocked_reason->0@))
            &&& list.contains(ProposalItemField::IsExecutable) <==> before.is_executable != after.is_executable
            &&& list.contains(ProposalItemField::Revision) <==> before.revision != after.revision
            &&& list.contains(ProposalItemField::CompletedAt) <==> before.completed_at != after.completed_at
            &&& list.contains(ProposalItemField::DeletedAt) <==> before.deleted_at != after.deleted_at
            &&& list.contains(ProposalItemField::Dependencies) <==> before.dependencies@ != after.dependencies@
            &&& list.contains(ProposalItemField::Recurrence) <==> !crate::json::optional_json_same(
                before.recurrence,
                after.recurrence,
            )
            &&& list.contains(ProposalItemField::FlexibleConstraints) <==> !crate::json::json_same(
                before.constraints,
                after.constraints,
            )
        }),
{
    let list = changed_field_list(Some(before), Some(after));
    assert forall|field: ProposalItemField| #[trigger] list.contains(field) == field_differs(
        before,
        after,
        field,
    ) by {
        lemma_every_field(field);
        lemma_listed(before, after, all_fields(), field);
    }
}

/// Of an item that is new every field is pointed out.
pub proof fn every_field_of_a_new_item_is_pointed_out(
    after: Option<Item>,
    field: ProposalItemField,
)
    ensures
        changed_field_list(None, after).contains(field),
{
    lemma_every_field(field);
}

/// Items that agree agree in every part, and a review has nothing to point out of them.
pub proof fn agreeing_items_have_the_same_parts(a: Item, b: Item)
    requires
        item_same(a, b),
    ensures
        a.id == b.id,
        a.created_at == b.created_at,
        a.updated_at == b.updated_at,
        a.is_sensitive == b.is_sensitive,
        a.kind == b.kind,
        a.status == b.status,
        a.title@ == b.title@,
        a.notes is Some == b.notes is Some && (a.notes is Some ==> a.notes->0@ == b.notes->0@),
        a.timezone_name@ == b.timezone_name@,
        a.duration_kind == b.duration_kind,
        a.duration_seconds == b.duration_seconds,
        a.duration_min_seconds == b.duration_min_seconds,
        a.duration_max_seconds == b.duration_max_seconds,
        a.duration_source == b.duration_source,
        a.deadline_kind == b.deadline_kind,
        a.deadline_date == b.deadline_date,
        a.deadline_at == b.deadline_at,
        a.deadline_strength == b.deadline_strength,
        a.deadline_soft_weight == b.deadline_soft_weight,
        a.earliest_start_at == b.earliest_start_at,
        a.has_own_effort == b.has_own_effort,
        a.split_policy == b.split_policy,
        a.importance == b.importance,
        a.urgency == b.urgency,
        a.parent_id == b.parent_id,
        a.sibling_order == b.sibling_order,
        a.blocked_reason_kind == b.blocked_reason_kind,
        a.blocked_by_item_id == b.blocked_by_item_id,
        a.blocked_reason is Some == b.blocked_reason is Some && (a.blocked_reason is Some ==> a.blocked_reason->0@ == b.blocked_reason->0@),
        a.is_executable == b.is_executable,
        a.revision == b.revision,
        a.completed_at == b.completed_at,
        a.deleted_at == b.deleted_at,
        a.dependencies@ == b.dependencies@,
        crate::json::optional_json_same(a.recurrence, b.recurrence),
        crate::json::json_same(a.constraints, b.constraints),
{
}

/// Items of the same identity and times of which a review has nothing to point out agree.
pub proof fn items_without_changed_fields_agree(before: Item, after: Item)
    requires
        before.id == after.id,
        before.created_at == after.created_at,
        before.updated_at == after.updated_at,
        changed_field_list(Some(before), Some(after)).len() == 0,
    ensures
        item_same(before, after),
{
    let list = changed_field_list(Some(before), Some(after));
    assert forall|field: ProposalItemField| !(#[trigger] field_differs(before, after, field)) by {
        lemma_every_field(field);
        lemma_listed(before, after, all_fields(), field);
        assert(!list.contains(field));
    }
    assert(!field_differs(before, after, ProposalItemField::IsSensitive));
    assert(!field_differs(before, after, ProposalItemField::Kind));
    assert(!field_differs(before, after, ProposalItemField::Status));
    assert(!field_differs(before, after, ProposalItemField::Title));
    assert(!field_differs(before, after, ProposalItemField::Notes));
    assert(!field_differs(before, after, ProposalItemField::TimezoneName));
    assert(!field_differs(before, after, ProposalItemField::DurationKind));
    assert(!field_differs(before, after, ProposalItemField::DurationSeconds));
    assert(!field_differs(before, after, ProposalItemField::DurationMinSeconds));
    assert(!field_differs(before, after, ProposalItemField::DurationMaxSeconds));
    assert(!field_differs(before, after, ProposalItemField::DurationSource));
    assert(!field_differs(before, after, ProposalItemField::DeadlineKind));
    assert(!field_differs(before, after, ProposalItemField::DeadlineDate));
    assert(!field_differs(before, after, ProposalItemField::DeadlineAt));
    assert(!field_differs(before, after, ProposalItemField::DeadlineStrength));
    assert(!field_differs(before, after, ProposalItemField::DeadlineSoftWeight));
    assert(!field_differs(before, after, ProposalItemField::EarliestStartAt));
    assert(!field_differs(before, after, ProposalItemField::Recurrence));
    assert(!field_differs(before, after, ProposalItemField::FlexibleConstraints));
    assert(!field_differs(before, after, ProposalItemField::Dependencies));
    assert(!field_differs(before, after, ProposalItemField::HasOwnEffort));
    assert(!field_differs(before, after, ProposalItemField::SplitPolicy));
    assert(!field_differs(before, after, ProposalItemField::Importance));
    assert(!field_differs(before, after, ProposalItemField::Urgency));
    assert(!field_differs(before, after, ProposalItemField::ParentId));
    assert(!field_differs(before, after, ProposalItemField::SiblingOrder));
    assert(!field_differs(before, after, ProposalItemField::BlockedReasonKind));
    assert(!field_differs(before, after, ProposalItemField::BlockedByItemId));
    assert(!field_differs(before, after, ProposalItemField::BlockedReason));
    assert(!field_differs(before, after, ProposalItemField::IsExecutable));
    assert(!field_differs(before, after, ProposalItemField::Revision));
    assert(!field_differs(before, after, ProposalItemField::CompletedAt));
    assert(!field_differs(before, after, ProposalItemField::DeletedAt));
}

proof fn lemma_found(items: Seq<Item>, id: Uuid)
    ensures
        match item_with_id(items, id) {
            Some(found) => found.id == id && items.contains(found),
            None => forall|k: int| 0 <= k < items.len() ==> (#[trigger] items[k]).id != id,
        },
    decreases items.len(),
{
    if items.len() > 0 {
        let first = items.drop_last();
        lemma_found(first, id);
        if items.last().id == id {
            assert(items[items.len() - 1] == items.last());
        } else {
            match item_with_id(first, id) {
                Some(found) => {
                    let k = choose|k: int| 0 <= k < first.len() && first[k] == found;
                    assert(items[k] == found);
                },
                None => {
                    assert forall|k: int| 0 <= k < items.len() implies (#[trigger] items[k]).id
                        != id by {
                        if k < first.len() {
                            assert(first[k] == items[k]);
                        }
                    }
                },
            }
        }
    }
}

/// An item that is found by its identifier is one of the items with that identifier, and one
/// is found wherever there is one.
pub proof fn items_are_found_by_their_identity(items: Seq<Item>, id: Uuid, k: int)
    requires
        0 <= k < items.len(),
        items[k].id == id,
    ensures
        item_with_id(items, id) is Some,
        item_with_id(items, id)->0.id == id,
        items.contains(item_with_id(items, id)->0),
        (forall|j: int| 0 <= j < items.len() && j != k ==> (#[trigger] items[j]).id != id)
            ==> item_with_id(items, id) == Some(items[k]),
{
    lemma_found(items, id);
    let found = item_with_id(items, id);
    if found is Some {
        let j = choose|j: int| 0 <= j < items.len() && items[j] == found->0;
        assert(items[j].id == id);
    }
}

proof fn lemma_implicit(
    before_items: Seq<Item>,
    after_items: Seq<Item>,
    commands: Seq<ProposalCommand>,
    item: Item,
)
    ensures
        implicit_changes(before_items, after_items, commands).contains(item) == (
        before_items.contains(item) && crate::review::diffs::changed_implicitly(
            item,
            after_items,
            commands,
        )),
    decreases before_items.len(),
{
    reveal(Seq::filter);
    let keep = |before: Item|
        crate::review::diffs::changed_implicitly(before, after_items, commands);
    if before_items.len() > 0 {
        let first = before_items.drop_last();
        let last = before_items.last();
        lemma_implicit(first, after_items, commands, item);
        let some = implicit_changes(first, after_items, commands);
        assert(implicit_changes(before_items, after_items, commands) == if keep(last) {
            some.push(last)
        } else {
            some
        });
        assert(before_items =~= first.push(last));
        lemma_pushed(first, last, item);
        lemma_pushed(some, last, item);
    }
}

/// The item that a command is about.
pub open spec fn about(command: ProposalCommand) -> Uuid {
    match command {
        ProposalCommand::CreateItem { item, .. } => item.id,
        ProposalCommand::ReplaceItem { item_id, .. } => item_id,
        ProposalCommand::TrashItem { item_id, .. } => item_id,
        ProposalCommand::RestoreItem { item_id, .. } => item_id,
    }
}

/// A review shows a change of an item that no command is about exactly if there is one: the
/// item is still there and no longer what it was.
pub proof fn implicit_changes_are_shown(
    before_items: Seq<Item>,
    after_items: Seq<Item>,
    commands: Seq<ProposalCommand>,
    i: int,
    j: int,
)
    requires
        0 <= i < before_items.len(),
        0 <= j < after_items.len(),
        after_items[j].id == before_items[i].id,
        forall|k: int|
            0 <= k < after_items.len() && k != j ==> (#[trigger] after_items[k]).id
                != before_items[i].id,
    ensures
        implicit_changes(before_items, after_items, commands).contains(before_items[i])
            <==> !item_same(before_items[i], after_items[j]) && forall|k: int|
            0 <= k < commands.len() ==> about(#[trigger] commands[k]) != before_items[i].id,
{
    lemma_implicit(before_items, after_items, commands, before_items[i]);
    items_are_found_by_their_identity(after_items, before_items[i].id, j);
    assert(before_items.contains(before_items[i]));
    if crate::review::diffs::is_target(commands, before_items[i].id) {
        let k = choose|k: int|
            0 <= k < commands.len() && (#[trigger] commands[k]).spec_target() == before_items[i].id;
        assert(about(commands[k]) == before_items[i].id);
    } else {
        assert forall|k: int| 0 <= k < commands.len() implies about(#[trigger] commands[k])
            != before_items[i].id by {
            assert(commands[k].spec_target() != before_items[i].id);
        }
    }
}

/// A conflict tells what is the case: the command that is in conflict, its item, and what the
/// store refused it for. The revisions are told exactly where they are what is in conflict.
pub proof fn conflicts_tell_what_was_refused(command: ProposalCommand, error: ItemRepositoryError)
    ensures
        ({
            let conflict = conflict_of(command, error);
            &&& conflict.command_id == Some(
                match command {
                    ProposalCommand::CreateItem { command_id, .. } => command_id,
                    ProposalCommand::ReplaceItem { command_id, .. } => command_id,
                    ProposalCommand::TrashItem { command_id, .. } => command_id,
                    ProposalCommand::RestoreItem { command_id, .. } => command_id,
                },
            )
            &&& conflict.item_id == Some(about(command))
            &&& match error {
                ItemRepositoryError::RevisionConflict { expected, actual } => {
                    &&& conflict.code == ProposalConflictCode::ItemRevisionMismatch
                    &&& conflict.expected_revision == Some(expected)
                    &&& conflict.actual_revision == Some(actual)
                },
                _ => {
                    &&& conflict.code != ProposalConflictCode::ItemRevisionMismatch
                    &&& conflict.expected_revision is None
                    &&& conflict.actual_revision is None
                },
            }
            &&& (conflict.code == ProposalConflictCode::ItemAlreadyExists) == (error is Duplicate)
            &&& (conflict.code == ProposalConflictCode::ItemNotFound) == (error is NotFound)
            &&& (conflict.code == ProposalConflictCode::ParentNotFound) == (error
                is ParentNotFound)
            &&& (conflict.code == ProposalConflictCode::HierarchyCycle) == (error is HierarchyCycle
                || error is SelfParent)
            &&& (conflict.code == ProposalConflictCode::DependencyNotFound) == (error
                is DependencyNotFound)
            &&& (conflict.code == ProposalConflictCode::DependencyCycle) == (error
                is DependencyCycle)
            &&& (conflict.code == ProposalConflictCode::InvalidParentState) == (error
                is InvalidParentState)
            &&& (conflict.code == ProposalConflictCode::NonLeafExecutable) == (error
                is NonLeafExecutable)
            &&& (conflict.code == ProposalConflictCode::HasChildren) == (error is HasChildren)
            &&& (conflict.code == ProposalConflictCode::DeletedParent) == (error is DeletedParent)
            &&& conflict.code == conflict_code(error)
        }),
{
}

/// The conflict with an item that is managed elsewhere names the first command about the item,
/// and there is one such conflict for each such item.
pub proof fn managed_items_are_in_conflict(
    commands: Seq<ProposalCommand>,
    managed: Seq<Uuid>,
    i: int,
    k: int,
)
    requires
        0 <= i < managed.len(),
    ensures
        managed_conflicts(commands, managed).len() == managed.len(),
        managed_conflicts(commands, managed)[i].code == ProposalConflictCode::ProviderManagedItem,
        managed_conflicts(commands, managed)[i].item_id == Some(managed[i]),
        0 <= k < commands.len() && about(commands[k]) == managed[i] && (forall|j: int|
            0 <= j < k ==> about(#[trigger] commands[j]) != managed[i]) ==> managed_conflicts(
            commands,
            managed,
        )[i].command_id == Some(commands[k].spec_command_id()),
        (forall|j: int| 0 <= j < commands.len() ==> about(#[trigger] commands[j]) != managed[i])
            ==> managed_conflicts(commands, managed)[i].command_id is None,
{
    if 0 <= k < commands.len() && about(commands[k]) == managed[i] && (forall|j: int|
        0 <= j < k ==> about(#[trigger] commands[j]) != managed[i]) {
        lemma_first_about(commands, managed[i], k);
    }
    if forall|j: int| 0 <= j < commands.len() ==> about(#[trigger] commands[j]) != managed[i] {
        lemma_none_about(commands, managed[i]);
    }
}

proof fn lemma_first_about(commands: Seq<ProposalCommand>, id: Uuid, k: int)
    requires
        0 <= k < commands.len(),
        about(commands[k]) == id,
        forall|j: int| 0 <= j < k ==> about(#[trigger] commands[j]) != id,
    ensures
        first_command_about(commands, id) == Some(commands[k].spec_command_id()),
    decreases k,
{
    if k > 0 {
        assert(about(commands[0]) != id);
        let rest = commands.skip(1);
        assert forall|j: int| 0 <= j < k - 1 implies about(#[trigger] rest[j]) != id by {
            assert(rest[j] == commands[j + 1]);
        }
        lemma_first_about(rest, id, k - 1);
    }
}

proof fn lemma_none_about(commands: Seq<ProposalCommand>, id: Uuid)
    requires
        forall|j: int| 0 <= j < commands.len() ==> about(#[trigger] commands[j]) != id,
    ensures
        first_command_about(commands, id) is None,
    decreases commands.len(),
{
    if commands.len() > 0 {
        assert(about(commands[0]) != id);
        let rest = commands.skip(1);
        assert forall|j: int| 0 <= j < rest.len() implies about(#[trigger] rest[j]) != id by {
            assert(rest[j] == commands[j + 1]);
        }
        lemma_none_about(rest, id);
    }
}

/// Conflicts stand in the order of their items, and those of one item in the order of their
/// commands. A conflict that names none comes first.
pub proof fn conflicts_stand_in_order(conflicts: Seq<ProposalConflict>, i: int, j: int)
    requires
        in_conflict_order(conflicts),
        0 <= i < j < conflicts.len(),
    ensures
        conflicts[i].item_id is Some && conflicts[j].item_id is Some ==> conflicts[i].item_id->0
            <= conflicts[j].item_id->0,
        conflicts[i].item_id is Some ==> conflicts[j].item_id is Some,
        conflicts[i].item_id == conflicts[j].item_id && conflicts[i].command_id is Some
            ==> conflicts[j].command_id is Some && conflicts[i].command_id->0
            <= conflicts[j].command_id->0,
{
    assert(!crate::review::conflicts::key_before(
        crate::review::conflicts::conflict_key(conflicts[j]),
        crate::review::conflicts::conflict_key(conflicts[i]),
    ));
}

} // verus!
