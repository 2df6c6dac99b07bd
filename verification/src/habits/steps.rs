//! What each step of a pass over missed occurrences does.
use vstd::prelude::*;

use crate::habits::missed::{action_of_step, bound_action, maintenance_step};
use crate::habits::model::{
    HabitMissedConfiguration, HabitMissedResolution, HabitRepositoryError,
};
use crate::habits::passes::{next_stage, row_decided, ReconcileRow, ReconcileStage};
use crate::habits::reconcile::ReconcileProgress;
use crate::time::{Instant, Uuid};

verus! {

/// The decision that a step of a pass added, if it added one.
pub open spec fn added(before: ReconcileProgress, after: ReconcileProgress) -> Option<
    HabitMissedResolution,
> {
    if after.resolutions@.len() == before.resolutions@.len() + 1 {
        Some(after.resolutions@[before.resolutions@.len() as int])
    } else {
        None
    }
}

/// A step that fails changes nothing, one that succeeds adds at most one decision and keeps
/// those before it, and a habit that the pass is not made for fails it.
pub proof fn steps_add_one_decision_or_none(
    before: ReconcileProgress,
    policies: Map<Uuid, HabitMissedConfiguration>,
    row: ReconcileRow,
    now: Instant,
    after: ReconcileProgress,
    result: Result<(), HabitRepositoryError>,
)
    requires
        row_decided(before, policies, row, now, after, result),
    ensures
        result is Err ==> after == before,
        !policies.contains_key(row.looks_at().evidence.habit_id) ==> result == Err::<
            (),
            HabitRepositoryError,
        >(HabitRepositoryError::EvidenceConflict),
        result is Ok ==> {
            &&& after.limit == before.limit
            &&& after.overflow == before.overflow
            &&& before.deferred_pending_work ==> after.deferred_pending_work
            &&& before.resolutions@.len() <= after.resolutions@.len()
                <= before.resolutions@.len() + 1
            &&& after.resolutions@.take(before.resolutions@.len() as int) == before.resolutions@
            &&& added(before, after) is None ==> row is Pending && after.deferred_pending_work
                && after.transitioned@ == before.transitioned@
            &&& added(before, after) is Some && !(row is Fresh) ==> after.transitioned@
                == before.transitioned@.push(added(before, after)->0.occurrence_evidence_id)
            &&& row is Fresh ==> after.transitioned@ == before.transitioned@
        },
{
    if result is Ok {
        assert(after.resolutions@.take(before.resolutions@.len() as int) =~= before.resolutions@);
    }
}

/// A reduction that waits is bound to what is available: the decision gets the reduction that
/// was found, under its next revision, and goes on waiting for another pass where nothing is
/// available.
pub proof fn waiting_reductions_are_bound(
    before: ReconcileProgress,
    policies: Map<Uuid, HabitMissedConfiguration>,
    row: ReconcileRow,
    now: Instant,
    after: ReconcileProgress,
    result: Result<(), HabitRepositoryError>,
)
    requires
        row is Pending,
        row_decided(before, policies, row, now, after, result),
        policies.contains_key(row.looks_at().evidence.habit_id),
        row.looks_at().missed_resolution is Some,
        row.looks_at().missed_resolution->0.revision < i64::MAX,
    ensures
        ({
            let found = row->Pending_reduction;
            let current = row.looks_at().missed_resolution->0;
            match found {
                Ok(action) => {
                    &&& result is Ok
                    &&& added(before, after) is Some
                    &&& added(before, after)->0.action == action
                    &&& added(before, after)->0.revision == current.revision + 1
                    &&& added(before, after)->0.occurrence_evidence_id
                        == current.occurrence_evidence_id
                    &&& after.deferred_pending_work == before.deferred_pending_work
                },
                Err(HabitRepositoryError::MissedReductionUnavailable) => {
                    &&& result is Ok
                    &&& added(before, after) is None
                    &&& after.deferred_pending_work
                },
                Err(error) => result == Err::<(), HabitRepositoryError>(error),
            }
        }),
{
}

/// A decision that no longer holds is replaced by what is to be done about it, under its next
/// revision, and a decision that stands after all breaks the pass off. A reduction that is
/// given up though another is possible is left for another pass.
pub proof fn outdated_decisions_are_replaced(
    before: ReconcileProgress,
    policies: Map<Uuid, HabitMissedConfiguration>,
    row: ReconcileRow,
    now: Instant,
    after: ReconcileProgress,
    result: Result<(), HabitRepositoryError>,
)
    requires
        row is Maintenance,
        row_decided(before, policies, row, now, after, result),
        policies.contains_key(row.looks_at().evidence.habit_id),
        row.looks_at().missed_resolution is Some,
        row.looks_at().missed_resolution->0.revision < i64::MAX,
    ensures
        ({
            let occurrence = row.looks_at();
            let current = occurrence.missed_resolution->0;
            let reduction = row->Maintenance_reduction;
            let next = action_of_step(
                maintenance_step(
                    occurrence,
                    current,
                    policies[occurrence.evidence.habit_id],
                    row->carried_before,
                    row->pauses@,
                    row->target,
                    now,
                ),
                row->Maintenance_derived,
                reduction,
            );
            &&& next is Err ==> result == Err::<(), HabitRepositoryError>(next->Err_0)
            &&& next is Ok && next->Ok_0 is None ==> result == Err::<(), HabitRepositoryError>(
                HabitRepositoryError::EvidenceConflict,
            )
            &&& result is Ok ==> {
                &&& next is Ok && next->Ok_0 is Some
                &&& added(before, after) is Some
                &&& added(before, after)->0.action == next->Ok_0->0
                &&& added(before, after)->0.revision == current.revision + 1
                &&& added(before, after)->0.occurrence_evidence_id
                    == current.occurrence_evidence_id
                &&& added(before, after)->0.updated_at == now
                &&& after.deferred_pending_work == (before.deferred_pending_work || (
                added(before, after)->0.action is ReductionPending && reduction is Ok))
            }
            &&& next is Ok && next->Ok_0 is Some && !(next->Ok_0->0 is ReductionPending) ==> result
                is Ok
            &&& next is Ok && next->Ok_0 is Some && reduction is Ok ==> result is Ok
        }),
{
}

/// The first decision about an occurrence follows from the policy of its habit, and is taken
/// only if the habit still has that policy, nothing was decided before and the decision
/// satisfies the rules.
pub proof fn first_decisions_follow_the_policy(
    before: ReconcileProgress,
    policies: Map<Uuid, HabitMissedConfiguration>,
    row: ReconcileRow,
    now: Instant,
    after: ReconcileProgress,
    result: Result<(), HabitRepositoryError>,
)
    requires
        row is Fresh,
        row_decided(before, policies, row, now, after, result),
        policies.contains_key(row.looks_at().evidence.habit_id),
    ensures
        ({
            let occurrence = row.looks_at();
            let policy = policies[occurrence.evidence.habit_id].policy;
            let action = bound_action(row->Fresh_derived, row->Fresh_reduction);
            &&& result is Ok <==> row->stored_policy == Some(policy) && action is Ok
                && row->content_valid && occurrence.missed_resolution is None
            &&& result is Ok ==> {
                let made = added(before, after)->0;
                &&& added(before, after) is Some
                &&& made.action == action->Ok_0
                &&& made.configured_policy == policy
                &&& made.revision == 1
                &&& made.occurrence_evidence_id == occurrence.evidence.id
                &&& made.habit_id == occurrence.evidence.habit_id
                &&& made.source_planner_occurrence_id == occurrence.evidence.planner_occurrence_id
                &&& made.created_at == now && made.updated_at == now
                &&& after.deferred_pending_work == before.deferred_pending_work
            }
            &&& row->stored_policy is Some && row->stored_policy->0 != policy ==> result == Err::<
                (),
                HabitRepositoryError,
            >(HabitRepositoryError::EvidenceConflict)
        }),
{
}

/// A pass goes from maintenance to the reductions that wait and from there to the occurrences
/// that are new, where it stays; and each sort of row belongs to its own stage.
pub proof fn passes_go_through_their_stages(row: ReconcileRow)
    ensures
        next_stage(ReconcileStage::Maintenance) == ReconcileStage::Pending,
        next_stage(ReconcileStage::Pending) == ReconcileStage::Fresh,
        next_stage(ReconcileStage::Fresh) == ReconcileStage::Fresh,
        (row.belongs_to() == ReconcileStage::Maintenance) == (row is Maintenance),
        (row.belongs_to() == ReconcileStage::Pending) == (row is Pending),
        (row.belongs_to() == ReconcileStage::Fresh) == (row is Fresh),
{
}

/// A decision whose revision cannot be counted on is not changed: the pass fails.
pub proof fn revisions_that_are_used_up_fail_the_pass(
    before: ReconcileProgress,
    policies: Map<Uuid, HabitMissedConfiguration>,
    row: ReconcileRow,
    now: Instant,
    after: ReconcileProgress,
    result: Result<(), HabitRepositoryError>,
)
    requires
        row_decided(before, policies, row, now, after, result),
        policies.contains_key(row.looks_at().evidence.habit_id),
        row.looks_at().missed_resolution is Some,
        row.looks_at().missed_resolution->0.revision >= i64::MAX,
        row is Maintenance || (row is Pending && row->Pending_reduction is Ok),
    ensures
        result is Err,
        row is Pending ==> result == Err::<(), HabitRepositoryError>(
            HabitRepositoryError::Internal,
        ),
{
}

} // verus!
