//! Why a change set cannot be applied as things stand.
use vstd::prelude::*;

use crate::items::model::ItemRepositoryError;
use crate::proposals::application::{ProposalCommand, ProposalConflict, ProposalConflictCode};
use crate::review::errors::ProposalApplicationError;
use crate::time::Uuid;

verus! {

/// A conflict with the characters of its summary.
pub ghost struct ConflictView {
    pub code: ProposalConflictCode,
    pub command_id: Option<Uuid>,
    pub item_id: Option<Uuid>,
    pub expected_revision: Option<u64>,
    pub actual_revision: Option<u64>,
    pub summary: Seq<char>,
}

impl View for ProposalConflict {
    type V = ConflictView;

    open spec fn view(&self) -> ConflictView {
        ConflictView {
            code: self.code,
            command_id: self.command_id,
            item_id: self.item_id,
            expected_revision: self.expected_revision,
            actual_revision: self.actual_revision,
            summary: self.summary@,
        }
    }
}

/// The conflicts with the characters of their summaries.
pub open spec fn conflict_views(conflicts: Seq<ProposalConflict>) -> Seq<ConflictView> {
    conflicts.map_values(|conflict: ProposalConflict| conflict@)
}

/// The kind of conflict that an error of the item store stands for.
pub open spec fn conflict_code(error: ItemRepositoryError) -> ProposalConflictCode {
    match error {
        ItemRepositoryError::Duplicate(_) => ProposalConflictCode::ItemAlreadyExists,
        ItemRepositoryError::NotFound(_) => ProposalConflictCode::ItemNotFound,
        ItemRepositoryError::RevisionConflict { .. } => ProposalConflictCode::ItemRevisionMismatch,
        ItemRepositoryError::ParentNotFound(_) => ProposalConflictCode::ParentNotFound,
        ItemRepositoryError::HierarchyCycle => ProposalConflictCode::HierarchyCycle,
        ItemRepositoryError::SelfParent => ProposalConflictCode::HierarchyCycle,
        ItemRepositoryError::DependencyNotFound(_) => ProposalConflictCode::DependencyNotFound,
        ItemRepositoryError::DependencyCycle => ProposalConflictCode::DependencyCycle,
        ItemRepositoryError::InvalidParentState => ProposalConflictCode::InvalidParentState,
        ItemRepositoryError::NonLeafExecutable => ProposalConflictCode::NonLeafExecutable,
        ItemRepositoryError::HasChildren => ProposalConflictCode::HasChildren,
        ItemRepositoryError::DeletedParent => ProposalConflictCode::DeletedParent,
        _ => ProposalConflictCode::InvalidItem,
    }
}

/// What the owner is told of an error of the item store.
pub open spec fn conflict_summary(error: ItemRepositoryError) -> Seq<char> {
    match error {
        ItemRepositoryError::DependencyNotFound(_) => {
            "A dependency predecessor no longer exists in this workspace."@
        },
        ItemRepositoryError::DependencyCycle => {
            "The proposed dependency change would create a cycle."@
        },
        ItemRepositoryError::CrossRecurringSubtreeDependency { .. } => {
            "A dependency cannot point into a different materialized recurring subtree."@
        },
        ItemRepositoryError::DeltaGroupTooLarge => {
            "Split this proposal into smaller batches because its atomic sync payload exceeds the safe device-delivery limit."@
        },
        _ => "This change no longer satisfies the current item constraints."@,
    }
}

/// The conflict of a command with an error of the item store.
pub open spec fn conflict_of(command: ProposalCommand, error: ItemRepositoryError) -> ConflictView {
    ConflictView {
        code: conflict_code(error),
        command_id: Some(command.spec_command_id()),
        item_id: Some(command.spec_target()),
        expected_revision: match error {
            ItemRepositoryError::RevisionConflict { expected, .. } => Some(expected),
            _ => None,
        },
        actual_revision: match error {
            ItemRepositoryError::RevisionConflict { actual, .. } => Some(actual),
            _ => None,
        },
        summary: conflict_summary(error),
    }
}

/// The conflict of a command with an error of the item store.
pub fn item_conflict(command: &ProposalCommand, error: &ItemRepositoryError) -> (result:
    ProposalConflict)
    ensures
        result@ == conflict_of(*command, *error),
{
    let code: ProposalConflictCode = match error {
        ItemRepositoryError::Duplicate(_) => ProposalConflictCode::ItemAlreadyExists,
        ItemRepositoryError::NotFound(_) => ProposalConflictCode::ItemNotFound,
        ItemRepositoryError::RevisionConflict { .. } => ProposalConflictCode::ItemRevisionMismatch,
        ItemRepositoryError::ParentNotFound(_) => ProposalConflictCode::ParentNotFound,
        ItemRepositoryError::HierarchyCycle | ItemRepositoryError::SelfParent => {
            ProposalConflictCode::HierarchyCycle
        },
        ItemRepositoryError::DependencyNotFound(_) => ProposalConflictCode::DependencyNotFound,
        ItemRepositoryError::DependencyCycle => ProposalConflictCode::DependencyCycle,
        ItemRepositoryError::InvalidParentState => ProposalConflictCode::InvalidParentState,
        ItemRepositoryError::NonLeafExecutable => ProposalConflictCode::NonLeafExecutable,
        ItemRepositoryError::HasChildren => ProposalConflictCode::HasChildren,
        ItemRepositoryError::DeletedParent => ProposalConflictCode::DeletedParent,
        _ => ProposalConflictCode::InvalidItem,
    };
    let (expected_revision, actual_revision): (Option<u64>, Option<u64>) = match error {
        ItemRepositoryError::RevisionConflict { expected, actual } => (
            Some(*expected),
            Some(*actual),
        ),
        _ => (None, None),
    };
    let summary: &'static str = match error {
        ItemRepositoryError::DependencyNotFound(_) => {
            "A dependency predecessor no longer exists in this workspace."
        },
        ItemRepositoryError::DependencyCycle => {
            "The proposed dependency change would create a cycle."
        },
        ItemRepositoryError::CrossRecurringSubtreeDependency { .. } => {
            "A dependency cannot point into a different materialized recurring subtree."
        },
        ItemRepositoryError::DeltaGroupTooLarge => {
            "Split this proposal into smaller batches because its atomic sync payload exceeds the safe device-delivery limit."
        },
        _ => "This change no longer satisfies the current item constraints.",
    };
    ProposalConflict {
        code,
        command_id: Some(command.command_id()),
        item_id: Some(command.target_item_id()),
        expected_revision,
        actual_revision,
        summary: summary.to_owned(),
    }
}

/// The identifier of the first command about an item, if there is one.
pub open spec fn first_command_about(commands: Seq<ProposalCommand>, id: Uuid) -> Option<Uuid>
    decreases commands.len(),
{
    if commands.len() == 0 {
        None
    } else if commands[0].spec_target() == id {
        Some(commands[0].spec_command_id())
    } else {
        first_command_about(commands.skip(1), id)
    }
}

/// The conflict with an item that an external calendar manages.
pub open spec fn managed_conflict(commands: Seq<ProposalCommand>, id: Uuid) -> ConflictView {
    ConflictView {
        code: ProposalConflictCode::ProviderManagedItem,
        command_id: first_command_about(commands, id),
        item_id: Some(id),
        expected_revision: None,
        actual_revision: None,
        summary: "This item is managed by an external calendar and cannot be changed by an AI proposal."@,
    }
}

/// The conflicts with items that an external calendar manages.
pub open spec fn managed_conflicts(commands: Seq<ProposalCommand>, managed: Seq<Uuid>) -> Seq<
    ConflictView,
> {
    managed.map_values(|id: Uuid| managed_conflict(commands, id))
}

fn find_command_about(commands: &Vec<ProposalCommand>, id: Uuid) -> (result: Option<Uuid>)
    ensures
        result == first_command_about(commands@, id),
{
    let mut i: usize = 0;
    assert(commands@.skip(0) =~= commands@);
    while i < commands.len()
        invariant
            i <= commands.len(),
            first_command_about(commands@, id) == first_command_about(commands@.skip(i as int), id),
        decreases commands.len() - i,
    {
        assert(commands@.skip(i as int)[0] == commands@[i as int]);
        assert(commands@.skip(i as int).skip(1) =~= commands@.skip(i + 1));
        if commands[i].target_item_id() == id {
            return Some(commands[i].command_id());
        }
        i = i + 1;
    }
    None
}

/// The conflicts with items that an external calendar manages, in the order in which
/// these items are given.
pub fn provider_managed_conflicts(commands: &Vec<ProposalCommand>, managed: &Vec<Uuid>) -> (result:
    Vec<ProposalConflict>)
    ensures
        conflict_views(result@) == managed_conflicts(commands@, managed@),
{
    let mut conflicts: Vec<ProposalConflict> = Vec::new();
    let mut i: usize = 0;
    while i < managed.len()
        invariant
            i <= managed.len(),
            conflict_views(conflicts@) == managed_conflicts(commands@, managed@).take(i as int),
        decreases managed.len() - i,
    {
        let ghost earlier = conflicts@;
        let conflict = ProposalConflict {
            code: ProposalConflictCode::ProviderManagedItem,
            command_id: find_command_about(commands, managed[i]),
            item_id: Some(managed[i]),
            expected_revision: None,
            actual_revision: None,
            summary: "This item is managed by an external calendar and cannot be changed by an AI proposal.".to_owned(),
        };
        assert(conflict@ == managed_conflicts(commands@, managed@)[i as int]);
        conflicts.push(conflict);
        assert(conflict_views(conflicts@) =~= conflict_views(earlier).push(conflict@));
        i = i + 1;
        assert(conflict_views(conflicts@) =~= managed_conflicts(commands@, managed@).take(i as int));
    }
    assert(managed_conflicts(commands@, managed@).take(i as int) =~= managed_conflicts(
        commands@,
        managed@,
    ));
    conflicts
}

/// Whether none of the items that an application or an undoing changes is managed by an
/// external calendar. `managed` are those of them that are.
pub fn reject_provider_managed_items(managed: &Vec<Uuid>) -> (result: Result<
    (),
    ProposalApplicationError,
>)
    ensures
        match result {
            Ok(_) => managed@.len() == 0,
            Err(error) => managed@.len() > 0 && error@ == crate::review::errors::Refusal::Stale(
                ProposalConflictCode::ProviderManagedItem,
            ),
        },
{
    if managed.len() == 0 {
        Ok(())
    } else {
        Err(ProposalApplicationError::Stale(ProposalConflictCode::ProviderManagedItem))
    }
}

/// Whether an optional identifier comes before another one: none comes first.
pub open spec fn before_optional(a: Option<Uuid>, b: Option<Uuid>) -> bool {
    match (a, b) {
        (None, Some(_)) => true,
        (Some(x), Some(y)) => x < y,
        _ => false,
    }
}

/// By what conflicts are ordered: the item and then the command.
pub open spec fn conflict_key(conflict: ProposalConflict) -> (Option<Uuid>, Option<Uuid>) {
    (conflict.item_id, conflict.command_id)
}

/// Whether a key comes before another one.
pub open spec fn key_before(
    a: (Option<Uuid>, Option<Uuid>),
    b: (Option<Uuid>, Option<Uuid>),
) -> bool {
    before_optional(a.0, b.0) || (a.0 == b.0 && before_optional(a.1, b.1))
}

/// Whether conflicts stand in order: none comes after one that it should come before.
pub open spec fn in_conflict_order(conflicts: Seq<ProposalConflict>) -> bool {
    forall|i: int, j: int|
        0 <= i < j < conflicts.len() ==> !key_before(
            conflict_key(#[trigger] conflicts[j]),
            conflict_key(#[trigger] conflicts[i]),
        )
}

/// The conflicts of one item and command.
pub open spec fn conflicts_with_key(
    conflicts: Seq<ProposalConflict>,
    key: (Option<Uuid>, Option<Uuid>),
) -> Seq<ProposalConflict> {
    conflicts.filter(|conflict: ProposalConflict| conflict_key(conflict) == key)
}

fn optional_before(a: Option<Uuid>, b: Option<Uuid>) -> (result: bool)
    ensures
        result == before_optional(a, b),
{
    match (a, b) {
        (None, Some(_)) => true,
        (Some(x), Some(y)) => x < y,
        _ => false,
    }
}

fn conflict_precedes(a: &ProposalConflict, b: &ProposalConflict) -> (result: bool)
    ensures
        result == key_before(conflict_key(*a), conflict_key(*b)),
{
    optional_before(a.item_id, b.item_id) || (a.item_id == b.item_id && optional_before(
        a.command_id,
        b.command_id,
    ))
}

/// The conflicts ordered by item and then by command. Of two conflicts of the same item
/// and command the one that came first stays first.
pub fn sorted_conflicts(conflicts: Vec<ProposalConflict>) -> (result: Vec<ProposalConflict>)
    ensures
        in_conflict_order(result@),
        forall|key: (Option<Uuid>, Option<Uuid>)| #[trigger]
            conflicts_with_key(result@, key) == conflicts_with_key(conflicts@, key),
        result@.len() == conflicts@.len(),
{
    let ghost all = conflicts@;
    let count: usize = conflicts.len();
    let mut remaining: Vec<ProposalConflict> = conflicts;
    let mut sorted: Vec<ProposalConflict> = Vec::new();
    let mut i: usize = 0;
    assert(all.take(0) =~= sorted@);
    while i < count
        invariant
            i <= count,
            count == all.len(),
            conflicts@ == all,
            remaining@ == all.skip(i as int),
            sorted@.len() == i,
            in_conflict_order(sorted@),
            forall|key: (Option<Uuid>, Option<Uuid>)| #[trigger]
                conflicts_with_key(sorted@, key) == conflicts_with_key(all.take(i as int), key),
        decreases count - i,
    {
        let next: ProposalConflict = remaining.remove(0);
        assert(next == all[i as int]);
        assert(remaining@ =~= all.skip(i + 1));
        let mut place: usize = sorted.len();
        while place > 0 && conflict_precedes(&next, &sorted[place - 1])
            invariant
                place <= sorted.len(),
                forall|k: int|
                    place <= k < sorted@.len() ==> key_before(
                        conflict_key(next),
                        conflict_key(#[trigger] sorted@[k]),
                    ),
            decreases place,
        {
            place = place - 1;
        }
        let ghost before = sorted@;
        let ghost added = next;
        sorted.insert(place, next);
        proof {
            assert forall|key: (Option<Uuid>, Option<Uuid>)| #[trigger]
                conflicts_with_key(sorted@, key) == conflicts_with_key(all.take(i + 1), key) by {
                let keep = |conflict: ProposalConflict| conflict_key(conflict) == key;
                let low = before.take(place as int);
                let high = before.skip(place as int);
                assert(sorted@ =~= low + seq![added] + high);
                assert(before =~= low + high);
                Seq::filter_distributes_over_add(low + seq![added], high, keep);
                Seq::filter_distributes_over_add(low, seq![added], keep);
                Seq::filter_distributes_over_add(low, high, keep);
                crate::sequences::lemma_filter_step(all, i as int, keep);
                crate::sequences::lemma_filter_one(added, keep);
                assert(conflicts_with_key(before, key) == conflicts_with_key(
                    all.take(i as int),
                    key,
                ));
                if keep(added) {
                    crate::sequences::lemma_filter_empty(high, keep);
                }
                assert(sorted@.filter(keep) =~= all.take(i + 1).filter(keep));
            }
            assert forall|a: int, b: int| 0 <= a < b < sorted@.len() implies !key_before(
                conflict_key(#[trigger] sorted@[b]),
                conflict_key(#[trigger] sorted@[a]),
            ) by {
                let old_a = if a < place { a } else { a - 1 };
                let old_b = if b < place { b } else { b - 1 };
                if a != place {
                    assert(sorted@[a] == before[old_a]);
                }
                if b != place {
                    assert(sorted@[b] == before[old_b]);
                }
                if a == place && b > place {
                    assert(key_before(conflict_key(added), conflict_key(before[old_b])));
                }
                if a < place && b == place {
                    if a < place - 1 {
                        assert(!key_before(
                            conflict_key(before[place - 1]),
                            conflict_key(before[a]),
                        ));
                    }
                }
            }
        }
        i = i + 1;
    }
    assert(all.take(i as int) =~= all);
    sorted
}

/// The conflicts that a trial of undoing a change set showed.
pub open spec fn undo_conflicts(
    commands: Seq<ProposalCommand>,
    undone: Result<Result<(), ItemRepositoryError>, ProposalConflict>,
) -> Seq<ConflictView> {
    match undone {
        Ok(Ok(_)) => Seq::empty(),
        Ok(Err(error)) => seq![conflict_of(commands[0], error)],
        Err(conflict) => seq![conflict@],
    }
}

/// The conflicts that a trial of a change set showed.
///
/// `managed` are the affected items that an external calendar manages. `applied` tells
/// whether the changes could be delivered, and `undone` whether undoing them again
/// could be carried out and delivered.
pub fn trial_conflicts(
    commands: &Vec<ProposalCommand>,
    managed: &Vec<Uuid>,
    applied: Result<(), ItemRepositoryError>,
    undone: Result<Result<(), ItemRepositoryError>, ProposalConflict>,
) -> (result: Vec<ProposalConflict>)
    requires
        commands@.len() > 0,
    ensures
        conflict_views(result@) == managed_conflicts(commands@, managed@) + (match applied {
            Ok(_) => Seq::<ConflictView>::empty(),
            Err(error) => seq![conflict_of(commands@[0], error)],
        }) + undo_conflicts(commands@, undone),
{
    let mut conflicts: Vec<ProposalConflict> = provider_managed_conflicts(commands, managed);
    match applied {
        Ok(_) => {},
        Err(error) => {
            conflicts.push(item_conflict(&commands[0], &error));
        },
    }
    let ghost second = conflicts@;
    let ghost undone_part = undo_conflicts(commands@, undone);
    match undone {
        Ok(Ok(_)) => {},
        Ok(Err(error)) => {
            conflicts.push(item_conflict(&commands[0], &error));
        },
        Err(conflict) => {
            conflicts.push(conflict);
        },
    }
    proof {
        let managed_part = managed_conflicts(commands@, managed@);
        let applied_part = match applied {
            Ok(_) => Seq::<ConflictView>::empty(),
            Err(error) => seq![conflict_of(commands@[0], error)],
        };
        assert(conflict_views(second) =~= managed_part + applied_part);
        assert(conflict_views(conflicts@) =~= conflict_views(second) + undone_part);
    }
    conflicts
}

} // verus!
