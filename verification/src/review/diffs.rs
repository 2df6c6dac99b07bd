//! What a change set does to the items, as it is shown before it is applied.
use vstd::prelude::*;

use crate::ids::insert_id;
use crate::items::commands::TransactionalItemEffect;
use crate::items::model::{same_dependencies, same_optional_json, Item};
use crate::proposals::application::{
    ProposalCommand, ProposalImplicitChangeReason, ProposalImplicitItemDiff, ProposalItemDiff,
    ProposalItemField,
};
use crate::text::{same_optional_text, same_text};
use crate::time::Uuid;

verus! {

/// The fields that a review can point out, in the order in which it does.
pub open spec fn all_fields() -> Seq<ProposalItemField> {
    seq![
        ProposalItemField::IsSensitive,
        ProposalItemField::Kind,
        ProposalItemField::Status,
        ProposalItemField::Title,
        ProposalItemField::Notes,
        ProposalItemField::TimezoneName,
        ProposalItemField::DurationKind,
        ProposalItemField::DurationSeconds,
        ProposalItemField::DurationMinSeconds,
        ProposalItemField::DurationMaxSeconds,
        ProposalItemField::DurationSource,
        ProposalItemField::DeadlineKind,
        ProposalItemField::DeadlineDate,
        ProposalItemField::DeadlineAt,
        ProposalItemField::DeadlineStrength,
        ProposalItemField::DeadlineSoftWeight,
        ProposalItemField::EarliestStartAt,
        ProposalItemField::Recurrence,
        ProposalItemField::FlexibleConstraints,
        ProposalItemField::Dependencies,
        ProposalItemField::HasOwnEffort,
        ProposalItemField::SplitPolicy,
        ProposalItemField::Importance,
        ProposalItemField::Urgency,
        ProposalItemField::ParentId,
        ProposalItemField::SiblingOrder,
        ProposalItemField::BlockedReasonKind,
        ProposalItemField::BlockedByItemId,
        ProposalItemField::BlockedReason,
        ProposalItemField::IsExecutable,
        ProposalItemField::Revision,
        ProposalItemField::CompletedAt,
        ProposalItemField::DeletedAt,
    ]
}

/// Whether two states of an item differ in a field.
pub open spec fn field_differs(before: Item, after: Item, field: ProposalItemField) -> bool {
    match field {
        ProposalItemField::IsSensitive => before.is_sensitive != after.is_sensitive,
        ProposalItemField::Kind => before.kind != after.kind,
        ProposalItemField::Status => before.status != after.status,
        ProposalItemField::Title => before.title@ != after.title@,
        ProposalItemField::Notes => crate::text::optional_text(before.notes) != crate::text::optional_text(
            after.notes,
        ),
        ProposalItemField::TimezoneName => before.timezone_name@ != after.timezone_name@,
        ProposalItemField::DurationKind => before.duration_kind != after.duration_kind,
        ProposalItemField::DurationSeconds => before.duration_seconds != after.duration_seconds,
        ProposalItemField::DurationMinSeconds => before.duration_min_seconds != after.duration_min_seconds,
        ProposalItemField::DurationMaxSeconds => before.duration_max_seconds != after.duration_max_seconds,
        ProposalItemField::DurationSource => before.duration_source != after.duration_source,
        ProposalItemField::DeadlineKind => before.deadline_kind != after.deadline_kind,
        ProposalItemField::DeadlineDate => before.deadline_date != after.deadline_date,
        ProposalItemField::DeadlineAt => before.deadline_at != after.deadline_at,
        ProposalItemField::DeadlineStrength => before.deadline_strength != after.deadline_strength,
        ProposalItemField::DeadlineSoftWeight => before.deadline_soft_weight != after.deadline_soft_weight,
        ProposalItemField::EarliestStartAt => before.earliest_start_at != after.earliest_start_at,
        ProposalItemField::Recurrence => !crate::json::optional_json_same(before.recurrence, after.recurrence),
        ProposalItemField::FlexibleConstraints => !crate::json::json_same(before.constraints, after.constraints),
        ProposalItemField::Dependencies => before.dependencies@ != after.dependencies@,
        ProposalItemField::HasOwnEffort => before.has_own_effort != after.has_own_effort,
        ProposalItemField::SplitPolicy => before.split_policy != after.split_policy,
        ProposalItemField::Importance => before.importance != after.importance,
        ProposalItemField::Urgency => before.urgency != after.urgency,
        ProposalItemField::ParentId => before.parent_id != after.parent_id,
        ProposalItemField::SiblingOrder => before.sibling_order != after.sibling_order,
        ProposalItemField::BlockedReasonKind => before.blocked_reason_kind != after.blocked_reason_kind,
        ProposalItemField::BlockedByItemId => before.blocked_by_item_id != after.blocked_by_item_id,
        ProposalItemField::BlockedReason => crate::text::optional_text(before.blocked_reason) != crate::text::optional_text(
            after.blocked_reason,
        ),
        ProposalItemField::IsExecutable => before.is_executable != after.is_executable,
        ProposalItemField::Revision => before.revision != after.revision,
        ProposalItemField::CompletedAt => before.completed_at != after.completed_at,
        ProposalItemField::DeletedAt => before.deleted_at != after.deleted_at,
    }
}

/// The fields in which two states of an item differ. Every field counts for an item
/// that did not exist, and only the deletion for one that no longer does.
pub open spec fn changed_field_list(before: Option<Item>, after: Option<Item>) -> Seq<
    ProposalItemField,
> {
    match before {
        None => all_fields(),
        Some(old_item) => match after {
            None => seq![ProposalItemField::DeletedAt],
            Some(new_item) => all_fields().filter(
                |field: ProposalItemField| field_differs(old_item, new_item, field),
            ),
        },
    }
}

fn fields_in_order() -> (result: Vec<ProposalItemField>)
    ensures
        result@ == all_fields(),
{
    let fields: Vec<ProposalItemField> = vec![
        ProposalItemField::IsSensitive,
        ProposalItemField::Kind,
        ProposalItemField::Status,
        ProposalItemField::Title,
        ProposalItemField::Notes,
        ProposalItemField::TimezoneName,
        ProposalItemField::DurationKind,
        ProposalItemField::DurationSeconds,
        ProposalItemField::DurationMinSeconds,
        ProposalItemField::DurationMaxSeconds,
        ProposalItemField::DurationSource,
        ProposalItemField::DeadlineKind,
        ProposalItemField::DeadlineDate,
        ProposalItemField::DeadlineAt,
        ProposalItemField::DeadlineStrength,
        ProposalItemField::DeadlineSoftWeight,
        ProposalItemField::EarliestStartAt,
        ProposalItemField::Recurrence,
        ProposalItemField::FlexibleConstraints,
        ProposalItemField::Dependencies,
        ProposalItemField::HasOwnEffort,
        ProposalItemField::SplitPolicy,
        ProposalItemField::Importance,
        ProposalItemField::Urgency,
        ProposalItemField::ParentId,
        ProposalItemField::SiblingOrder,
        ProposalItemField::BlockedReasonKind,
        ProposalItemField::BlockedByItemId,
        ProposalItemField::BlockedReason,
        ProposalItemField::IsExecutable,
        ProposalItemField::Revision,
        ProposalItemField::CompletedAt,
        ProposalItemField::DeletedAt,
    ];
    assert(fields@ =~= all_fields());
    fields
}

/// Whether two states of an item differ in a field.
pub fn field_changed(before: &Item, after: &Item, field: ProposalItemField) -> (result: bool)
    ensures
        result == field_differs(*before, *after, field),
{
    match field {
        ProposalItemField::IsSensitive => before.is_sensitive != after.is_sensitive,
        ProposalItemField::Kind => before.kind != after.kind,
        ProposalItemField::Status => before.status != after.status,
        ProposalItemField::Title => !same_text(before.title.as_str(), after.title.as_str()),
        ProposalItemField::Notes => !same_optional_text(&before.notes, &after.notes),
        ProposalItemField::TimezoneName => !same_text(before.timezone_name.as_str(), after.timezone_name.as_str()),
        ProposalItemField::DurationKind => before.duration_kind != after.duration_kind,
        ProposalItemField::DurationSeconds => before.duration_seconds != after.duration_seconds,
        ProposalItemField::DurationMinSeconds => before.duration_min_seconds != after.duration_min_seconds,
        ProposalItemField::DurationMaxSeconds => before.duration_max_seconds != after.duration_max_seconds,
        ProposalItemField::DurationSource => before.duration_source != after.duration_source,
        ProposalItemField::DeadlineKind => before.deadline_kind != after.deadline_kind,
        ProposalItemField::DeadlineDate => before.deadline_date != after.deadline_date,
        ProposalItemField::DeadlineAt => before.deadline_at != after.deadline_at,
        ProposalItemField::DeadlineStrength => before.deadline_strength != after.deadline_strength,
        ProposalItemField::DeadlineSoftWeight => before.deadline_soft_weight != after.deadline_soft_weight,
        ProposalItemField::EarliestStartAt => before.earliest_start_at != after.earliest_start_at,
        ProposalItemField::Recurrence => !same_optional_json(&before.recurrence, &after.recurrence),
        ProposalItemField::FlexibleConstraints => !before.constraints.same(&after.constraints),
        ProposalItemField::Dependencies => !same_dependencies(&before.dependencies, &after.dependencies),
        ProposalItemField::HasOwnEffort => before.has_own_effort != after.has_own_effort,
        ProposalItemField::SplitPolicy => before.split_policy != after.split_policy,
        ProposalItemField::Importance => before.importance != after.importance,
        ProposalItemField::Urgency => before.urgency != after.urgency,
        ProposalItemField::ParentId => before.parent_id != after.parent_id,
        ProposalItemField::SiblingOrder => before.sibling_order != after.sibling_order,
        ProposalItemField::BlockedReasonKind => before.blocked_reason_kind != after.blocked_reason_kind,
        ProposalItemField::BlockedByItemId => before.blocked_by_item_id != after.blocked_by_item_id,
        ProposalItemField::BlockedReason => !same_optional_text(&before.blocked_reason, &after.blocked_reason),
        ProposalItemField::IsExecutable => before.is_executable != after.is_executable,
        ProposalItemField::Revision => before.revision != after.revision,
        ProposalItemField::CompletedAt => before.completed_at != after.completed_at,
        ProposalItemField::DeletedAt => before.deleted_at != after.deleted_at,
    }
}

/// The fields in which two states of an item differ.
pub fn changed_fields(before: Option<&Item>, after: Option<&Item>) -> (result: Vec<
    ProposalItemField,
>)
    ensures
        result@ == changed_field_list(
            match before {
                Some(item) => Some(*item),
                None => None,
            },
            match after {
                Some(item) => Some(*item),
                None => None,
            },
        ),
{
    let fields: Vec<ProposalItemField> = fields_in_order();
    let (old_item, new_item) = match (before, after) {
        (None, _) => {
            return fields;
        },
        (Some(_), None) => {
            return vec![ProposalItemField::DeletedAt];
        },
        (Some(old_item), Some(new_item)) => (old_item, new_item),
    };
    let ghost differs = |field: ProposalItemField| field_differs(*old_item, *new_item, field);
    let mut changed: Vec<ProposalItemField> = Vec::new();
    let mut i: usize = 0;
    while i < fields.len()
        invariant
            i <= fields.len(),
            differs == (|field: ProposalItemField| field_differs(*old_item, *new_item, field)),
            changed@ == fields@.take(i as int).filter(differs),
        decreases fields.len() - i,
    {
        proof {
            crate::sequences::lemma_filter_step(fields@, i as int, differs);
        }
        if field_changed(old_item, new_item, fields[i]) {
            changed.push(fields[i]);
        }
        i = i + 1;
    }
    assert(fields@.take(i as int) =~= fields@);
    changed
}

/// Nothing is pointed out of an item that did not change.
pub proof fn same_item_has_no_changed_fields(before: Item, after: Item)
    requires
        crate::items::model::item_same(before, after),
    ensures
        changed_field_list(Some(before), Some(after)).len() == 0,
{
    let differs = |field: ProposalItemField| field_differs(before, after, field);
    assert forall|field: ProposalItemField| !#[trigger] differs(field) by {}
    crate::sequences::lemma_filter_empty(all_fields(), differs);
}

/// What a command did to its item.
pub fn item_diff(command: &ProposalCommand, effect: &TransactionalItemEffect) -> (result:
    ProposalItemDiff)
    ensures
        result.command_id == command.spec_command_id(),
        result.operation == command.spec_operation(),
        result.item_id == command.spec_target(),
        result.changed_fields@ == changed_field_list(effect.before, Some(effect.after)),
        match (effect.before, result.before) {
            (Some(a), Some(b)) => crate::items::model::item_same(a, b),
            (None, None) => true,
            _ => false,
        },
        result.after matches Some(after) && crate::items::model::item_same(effect.after, after),
{
    let before: Option<&Item> = match &effect.before {
        Some(item) => Some(item),
        None => None,
    };
    ProposalItemDiff {
        command_id: command.command_id(),
        operation: command.operation(),
        item_id: command.target_item_id(),
        changed_fields: changed_fields(before, Some(&effect.after)),
        before: match before {
            Some(item) => Some(item.clone()),
            None => None,
        },
        after: Some(effect.after.clone()),
    }
}

/// Whether some command is about the item.
pub open spec fn is_target(commands: Seq<ProposalCommand>, id: Uuid) -> bool {
    exists|k: int| 0 <= k < commands.len() && (#[trigger] commands[k]).spec_target() == id
}

/// The item with the given identifier, the last one where there are several.
pub open spec fn item_with_id(items: Seq<Item>, id: Uuid) -> Option<Item>
    decreases items.len(),
{
    if items.len() == 0 {
        None
    } else if items.last().id == id {
        Some(items.last())
    } else {
        item_with_id(items.drop_last(), id)
    }
}

/// Whether an item changed, though no command is about it.
pub open spec fn changed_implicitly(
    before: Item,
    after_items: Seq<Item>,
    commands: Seq<ProposalCommand>,
) -> bool {
    &&& !is_target(commands, before.id)
    &&& item_with_id(after_items, before.id) matches Some(after)
    &&& !crate::items::model::item_same(before, after)
}

/// The items that changed, though no command is about them.
pub open spec fn implicit_changes(
    before_items: Seq<Item>,
    after_items: Seq<Item>,
    commands: Seq<ProposalCommand>,
) -> Seq<Item> {
    before_items.filter(|before: Item| changed_implicitly(before, after_items, commands))
}

/// Whether `diff` tells what became of `before`.
pub open spec fn implicit_diff_of(
    diff: ProposalImplicitItemDiff,
    before: Item,
    after_items: Seq<Item>,
) -> bool {
    &&& diff.item_id == before.id
    &&& diff.reason == ProposalImplicitChangeReason::HierarchyRefresh
    &&& item_with_id(after_items, before.id) matches Some(after)
    &&& diff.changed_fields@ == changed_field_list(Some(before), Some(after))
    &&& crate::items::model::item_same(before, diff.before)
    &&& crate::items::model::item_same(after, diff.after)
}

fn targets(commands: &Vec<ProposalCommand>, id: Uuid) -> (result: bool)
    ensures
        result == is_target(commands@, id),
{
    let mut k: usize = 0;
    while k < commands.len()
        invariant
            k <= commands.len(),
            forall|j: int| 0 <= j < k ==> (#[trigger] commands@[j]).spec_target() != id,
        decreases commands.len() - k,
    {
        if commands[k].target_item_id() == id {
            assert(commands@[k as int].spec_target() == id);
            return true;
        }
        k = k + 1;
    }
    false
}

/// The item with the given identifier, the last one where there are several.
pub fn find_item(items: &Vec<Item>, id: Uuid) -> (result: Option<&Item>)
    ensures
        match result {
            Some(item) => item_with_id(items@, id) == Some(*item) && item.id == id,
            None => item_with_id(items@, id) is None,
        },
{
    let mut k: usize = items.len();
    assert(items@.take(k as int) =~= items@);
    while k > 0
        invariant
            k <= items.len(),
            item_with_id(items@, id) == item_with_id(items@.take(k as int), id),
        decreases k,
    {
        proof {
            assert(items@.take(k as int).drop_last() =~= items@.take(k - 1));
            assert(items@.take(k as int).last() == items@[k - 1]);
        }
        if items[k - 1].id == id {
            return Some(&items[k - 1]);
        }
        k = k - 1;
    }
    None
}

/// What changed in items that no command is about, in the order of the items.
pub fn implicit_item_diffs(
    before_items: &Vec<Item>,
    after_items: &Vec<Item>,
    commands: &Vec<ProposalCommand>,
) -> (result: Vec<ProposalImplicitItemDiff>)
    ensures
        result@.len() == implicit_changes(before_items@, after_items@, commands@).len(),
        forall|k: int|
            0 <= k < result@.len() ==> implicit_diff_of(
                #[trigger] result@[k],
                implicit_changes(before_items@, after_items@, commands@)[k],
                after_items@,
            ),
{
    let ghost keep = |before: Item| changed_implicitly(before, after_items@, commands@);
    let mut diffs: Vec<ProposalImplicitItemDiff> = Vec::new();
    let mut i: usize = 0;
    while i < before_items.len()
        invariant
            i <= before_items.len(),
            keep == (|before: Item| changed_implicitly(before, after_items@, commands@)),
            diffs@.len() == before_items@.take(i as int).filter(keep).len(),
            forall|k: int|
                0 <= k < diffs@.len() ==> implicit_diff_of(
                    #[trigger] diffs@[k],
                    before_items@.take(i as int).filter(keep)[k],
                    after_items@,
                ),
        decreases before_items.len() - i,
    {
        proof {
            crate::sequences::lemma_filter_step(before_items@, i as int, keep);
        }
        let before = &before_items[i];
        if !targets(commands, before.id) {
            match find_item(after_items, before.id) {
                Some(after) => {
                    if !before.same(after) {
                        diffs.push(
                            ProposalImplicitItemDiff {
                                item_id: before.id,
                                reason: ProposalImplicitChangeReason::HierarchyRefresh,
                                changed_fields: changed_fields(Some(before), Some(after)),
                                before: before.clone(),
                                after: after.clone(),
                            },
                        );
                    }
                },
                None => {},
            }
        }
        i = i + 1;
    }
    assert(before_items@.take(i as int) =~= before_items@);
    diffs
}

/// A review never lists a direct target of a command among the implicit changes.
pub proof fn implicit_changes_are_no_targets(
    before_items: Seq<Item>,
    after_items: Seq<Item>,
    commands: Seq<ProposalCommand>,
    k: int,
)
    requires
        0 <= k < implicit_changes(before_items, after_items, commands).len(),
    ensures
        !is_target(commands, implicit_changes(before_items, after_items, commands)[k].id),
{
    let keep = |before: Item| changed_implicitly(before, after_items, commands);
    before_items.lemma_filter_pred(keep, k);
}

/// The items that a change set is about or changes besides, in increasing order.
pub fn affected_preview_item_ids(
    commands: &Vec<ProposalCommand>,
    effects: &Vec<TransactionalItemEffect>,
    implicit_diffs: &Vec<ProposalImplicitItemDiff>,
) -> (result: Vec<Uuid>)
    ensures
        crate::ids::increasing(result@),
        forall|id: Uuid|
            result@.contains(id) <==> {
                ||| is_target(commands@, id)
                ||| exists|k: int| 0 <= k < effects@.len() && (#[trigger] effects@[k]).after.id == id
                ||| exists|k: int|
                    0 <= k < implicit_diffs@.len() && (#[trigger] implicit_diffs@[k]).item_id == id
            },
{
    let mut ids: Vec<Uuid> = Vec::new();
    let mut i: usize = 0;
    while i < commands.len()
        invariant
            i <= commands.len(),
            crate::ids::increasing(ids@),
            forall|id: Uuid|
                ids@.contains(id) <==> exists|k: int|
                    0 <= k < i && (#[trigger] commands@[k]).spec_target() == id,
        decreases commands.len() - i,
    {
        let id: Uuid = commands[i].target_item_id();
        insert_id(&mut ids, id);
        assert(commands@[i as int].spec_target() == id);
        i = i + 1;
    }
    let mut i: usize = 0;
    while i < effects.len()
        invariant
            i <= effects.len(),
            crate::ids::increasing(ids@),
            forall|id: Uuid|
                ids@.contains(id) <==> {
                    ||| is_target(commands@, id)
                    ||| exists|k: int| 0 <= k < i && (#[trigger] effects@[k]).after.id == id
                },
        decreases effects.len() - i,
    {
        let id: Uuid = effects[i].after.id;
        insert_id(&mut ids, id);
        assert(effects@[i as int].after.id == id);
        i = i + 1;
    }
    let mut i: usize = 0;
    while i < implicit_diffs.len()
        invariant
            i <= implicit_diffs.len(),
            crate::ids::increasing(ids@),
            forall|id: Uuid|
                ids@.contains(id) <==> {
                    ||| is_target(commands@, id)
                    ||| exists|k: int|
                        0 <= k < effects@.len() && (#[trigger] effects@[k]).after.id == id
                    ||| exists|k: int|
                        0 <= k < i && (#[trigger] implicit_diffs@[k]).item_id == id
                },
        decreases implicit_diffs.len() - i,
    {
        let id: Uuid = implicit_diffs[i].item_id;
        insert_id(&mut ids, id);
        assert(implicit_diffs@[i as int].item_id == id);
        i = i + 1;
    }
    ids
}

} // verus!
