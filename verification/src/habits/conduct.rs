//! What people can rely on when they report on habits, pause them or miss occurrences.
use vstd::prelude::*;

use crate::habits::missed::{
    action_of_step, bound_action, cancellation_reason, first_resolution, maintenance_step,
    next_resolution, policy_of_choice, policy_of_resume, reduction_lost, resume_of,
    resume_of_choice, source_window, target_lost, MissedStep, ReductionTarget,
};
use crate::habits::model::{
    HabitMissedCancellationReason, HabitMissedConfiguration,
    HabitMissedExplicitAction, HabitMissedPolicy, HabitMissedResolution,
    HabitMissedResolutionAction, HabitMissedResumeAction, HabitOccurrence, HabitOutcomeStatus,
    HabitPause, HabitRepositoryError, MissedResolveWrite, OutcomeWrite, PauseCreate, PauseResume,
};
use crate::habits::outcomes::{
    change_readable, habit_refusal, outcome_plan_fits, outcome_refusal, page_length,
    HabitChangeRow, HabitItemRow, OutcomePlan,
};
use crate::habits::pauses::{
    created_pause, habit_paused, pause_accepted, pause_conflict, pause_overlaps,
    pause_request_refusal, resume_refusal, resumed_pause, streak_preserved,
};
use crate::habits::reconcile::{
    cancels_choice, item_active, resolve_action_step, resolve_refusal, HabitItemState,
};
use crate::json::Json;
use crate::time::{Instant, Uuid};

verus! {

/// Whether a habit rests at an instant because of a pause.
pub open spec fn rests_at(pause: HabitPause, at: Instant) -> bool {
    pause.started_at <= at && (pause.ended_at is Some ==> at < pause.ended_at->0)
}

/// A pause touches a window exactly if some instant of the window lies within the pause.
pub proof fn pauses_touch_windows_at_an_instant(pause: HabitPause, start: Instant, end: Instant)
    requires
        start < end,
        pause.ended_at is Some ==> pause.started_at < pause.ended_at->0,
    ensures
        pause_overlaps(pause, start, end) <==> exists|at: Instant|
            start <= at < end && #[trigger] rests_at(pause, at),
{
    let at = if start < pause.started_at {
        pause.started_at
    } else {
        start
    };
    if pause_overlaps(pause, start, end) {
        assert(start <= at < end && rests_at(pause, at));
    }
}

/// Whether a habit rests at some instant of a window.
pub open spec fn rests_within(
    pauses: Seq<HabitPause>,
    habit_id: Uuid,
    start: Instant,
    end: Instant,
) -> bool {
    exists|k: int, at: Instant|
        0 <= k < pauses.len() && start <= at < end && (#[trigger] pauses[k]).habit_id == habit_id
            && #[trigger] rests_at(pauses[k], at)
}

proof fn lemma_paused(pauses: Seq<HabitPause>, habit_id: Uuid, start: Instant, end: Instant)
    requires
        start < end,
        forall|k: int|
            0 <= k < pauses.len() && (#[trigger] pauses[k]).ended_at is Some ==> pauses[k].started_at
                < pauses[k].ended_at->0,
    ensures
        habit_paused(pauses, habit_id, start, end) == rests_within(pauses, habit_id, start, end),
{
    if habit_paused(pauses, habit_id, start, end) {
        let k = choose|k: int|
            0 <= k < pauses.len() && (#[trigger] pauses[k]).habit_id == habit_id && pause_overlaps(
                pauses[k],
                start,
                end,
            );
        pauses_touch_windows_at_an_instant(pauses[k], start, end);
        let at = choose|at: Instant| start <= at < end && #[trigger] rests_at(pauses[k], at);
        assert(rests_at(pauses[k], at));
    }
    if rests_within(pauses, habit_id, start, end) {
        let (k, at) = choose|k: int, at: Instant|
            0 <= k < pauses.len() && start <= at < end && (#[trigger] pauses[k]).habit_id
                == habit_id && #[trigger] rests_at(pauses[k], at);
        pauses_touch_windows_at_an_instant(pauses[k], start, end);
        assert(pause_overlaps(pauses[k], start, end));
    }
}

/// Whether an occurrence is reported with a status.
pub open spec fn reported(occurrence: HabitOccurrence, status: HabitOutcomeStatus) -> bool {
    occurrence.outcome is Some && occurrence.outcome->0.status == status
}

/// The window that a missed occurrence stands for is the one that it was carried to, before
/// the carry was cancelled too, and its own otherwise.
pub proof fn missed_occurrences_stand_for_their_window(
    occurrence: HabitOccurrence,
    carried_before: Option<(Instant, Instant)>,
)
    ensures
        ({
            let window = source_window(occurrence, carried_before);
            let decided = occurrence.missed_resolution;
            &&& decided is Some && decided->0.action is Carry ==> window.0
                == decided->0.action->Carry_window_start && window.1
                == decided->0.action->Carry_window_end
            &&& decided is Some && decided->0.action is Cancelled
                && decided->0.action->resume_action == HabitMissedResumeAction::Carry
                && carried_before is Some ==> window == carried_before->0
            &&& decided is None || (!(decided->0.action is Carry) && !(decided->0.action
                is Cancelled && decided->0.action->resume_action
                == HabitMissedResumeAction::Carry)) || (decided->0.action is Cancelled
                && carried_before is None) ==> window.0 == occurrence.evidence.window_start
                && window.1 == occurrence.evidence.window_end
        }),
{
}

/// Nothing is to be done about a missed occurrence any more exactly if its habit produces no
/// occurrences, the occurrence was reported as completed or skipped, its habit rests at some
/// instant of its window, or its habit follows other rules by now. The reason that is given is
/// true.
pub proof fn cancellations_have_a_true_reason(
    occurrence: HabitOccurrence,
    configuration: HabitMissedConfiguration,
    carried_before: Option<(Instant, Instant)>,
    pauses: Seq<HabitPause>,
)
    requires
        source_window(occurrence, carried_before).0 < source_window(occurrence, carried_before).1,
        forall|k: int|
            0 <= k < pauses.len() && (#[trigger] pauses[k]).ended_at is Some ==> pauses[k].started_at
                < pauses[k].ended_at->0,
    ensures
        ({
            let window = source_window(occurrence, carried_before);
            let rests = rests_within(
                pauses,
                occurrence.evidence.habit_id,
                window.0,
                window.1,
            );
            let outdated = occurrence.evidence.policy_fingerprint@
                != crate::hashing::prefixed_text(configuration.policy_fingerprint@);
            let reason = cancellation_reason(occurrence, configuration, carried_before, pauses);
            &&& (reason is None) <==> configuration.is_active && !reported(
                occurrence,
                HabitOutcomeStatus::Completed,
            ) && !reported(occurrence, HabitOutcomeStatus::Skipped) && !rests && !outdated
            &&& reason == Some(HabitMissedCancellationReason::SourceCompleted) ==> reported(
                occurrence,
                HabitOutcomeStatus::Completed,
            )
            &&& reason == Some(HabitMissedCancellationReason::SourceSkipped) ==> reported(
                occurrence,
                HabitOutcomeStatus::Skipped,
            )
            &&& reason == Some(HabitMissedCancellationReason::SourcePaused) ==> rests
            &&& reason == Some(HabitMissedCancellationReason::SourceObsolete)
                ==> !configuration.is_active || outdated
        }),
{
    let window = source_window(occurrence, carried_before);
    lemma_paused(pauses, occurrence.evidence.habit_id, window.0, window.1);
}

/// A decision stands exactly if it is a cancellation whose reason still holds, or another
/// decision that nothing cancels, whose window is not over and whose reduction is not lost.
pub proof fn decisions_stand_while_they_hold(
    occurrence: HabitOccurrence,
    current: HabitMissedResolution,
    configuration: HabitMissedConfiguration,
    carried_before: Option<(Instant, Instant)>,
    pauses: Seq<HabitPause>,
    target: Option<ReductionTarget>,
    now: Instant,
)
    ensures
        ({
            let reason = cancellation_reason(occurrence, configuration, carried_before, pauses);
            let step = maintenance_step(
                occurrence,
                current,
                configuration,
                carried_before,
                pauses,
                target,
                now,
            );
            let action = current.action;
            &&& step is Keep <==> {
                ||| reason is Some && action is Cancelled
                ||| reason is None && !(action is Cancelled) && !(action is Carry
                    && action->Carry_window_end <= now) && !(action is ReduceFrequency
                    && reduction_lost(action, target))
            }
            &&& reason is Some && !(action is Cancelled) ==> match step {
                MissedStep::Replace(
                    HabitMissedResolutionAction::Cancelled { reason: told, resume_action },
                ) => told == reason->0 && match action {
                    HabitMissedResolutionAction::DecisionRequired => resume_action
                        == HabitMissedResumeAction::DecisionRequired,
                    HabitMissedResolutionAction::Skip => resume_action
                        == HabitMissedResumeAction::Skip,
                    HabitMissedResolutionAction::Carry { .. } => resume_action
                        == HabitMissedResumeAction::Carry,
                    _ => resume_action == HabitMissedResumeAction::ReduceFrequency,
                },
                _ => false,
            }
            &&& reason is None && action is Cancelled ==> match step {
                MissedStep::Derive { policy, binds_reduction } => binds_reduction && match
                    action->resume_action
                {
                    HabitMissedResumeAction::DecisionRequired => policy == HabitMissedPolicy::Ask,
                    HabitMissedResumeAction::Skip => policy == HabitMissedPolicy::Skip,
                    HabitMissedResumeAction::Carry => policy == HabitMissedPolicy::Carry,
                    HabitMissedResumeAction::ReduceFrequency => policy
                        == HabitMissedPolicy::ReduceFrequency,
                },
                _ => false,
            }
            &&& reason is None && action is Carry && action->Carry_window_end <= now ==> match step {
                MissedStep::Replace(asked) => asked is DecisionRequired && current.configured_policy
                    == HabitMissedPolicy::Ask,
                MissedStep::Derive { policy, binds_reduction } => current.configured_policy
                    != HabitMissedPolicy::Ask && policy == HabitMissedPolicy::Carry
                    && !binds_reduction,
                MissedStep::Keep => false,
            }
            &&& reason is None && action is ReduceFrequency && reduction_lost(action, target)
                ==> step == MissedStep::Replace(HabitMissedResolutionAction::ReductionPending)
        }),
{
}

/// A decision that was cancelled, and one that waits for a reduction again, is left alone by
/// the next look at it while nothing changes: maintenance comes to rest.
pub proof fn maintenance_comes_to_rest(
    occurrence: HabitOccurrence,
    current: HabitMissedResolution,
    configuration: HabitMissedConfiguration,
    carried_before: Option<(Instant, Instant)>,
    pauses: Seq<HabitPause>,
    target: Option<ReductionTarget>,
    now: Instant,
    next: HabitMissedResolutionAction,
    later: HabitMissedResolution,
    carried_later: Option<(Instant, Instant)>,
    target_later: Option<ReductionTarget>,
)
    requires
        occurrence.missed_resolution == Some(current),
        maintenance_step(
            occurrence,
            current,
            configuration,
            carried_before,
            pauses,
            target,
            now,
        ) == MissedStep::Replace(next),
        next is Cancelled || next is ReductionPending,
        later.action == next,
        next is Cancelled && current.action is Carry ==> carried_later == Some(
            (current.action->Carry_window_start, current.action->Carry_window_end),
        ),
    ensures
        maintenance_step(
            HabitOccurrence { missed_resolution: Some(later), ..occurrence },
            later,
            configuration,
            carried_later,
            pauses,
            target_later,
            now,
        ) is Keep,
{
}

/// A reduction is lost exactly if it leaves nothing out, what it leaves out is not known, or
/// that occurrence was reported on, falls into a pause, or is no longer part of a schedule
/// that covers it. No other action can lose one.
pub proof fn reductions_are_lost_with_their_target(
    action: HabitMissedResolutionAction,
    target: Option<ReductionTarget>,
)
    ensures
        !(action is ReduceFrequency) ==> !reduction_lost(action, target),
        action is ReduceFrequency ==> (reduction_lost(action, target) <==> {
            ||| action->suppressed_planner_occurrence_ids@.len() == 0
            ||| target is None
            ||| !target->0.outcome_eligible
            ||| target->0.paused
            ||| target->0.horizon_covers_target && !target->0.current_member
        }),
        target is Some && target->0.outcome_eligible && !target->0.paused
            && target->0.current_member ==> !target_lost(target->0),
{
}

/// A choice is taken up again as what it was: the policy that a choice stands for is the one
/// under which its cancellation is taken up again.
pub proof fn choices_are_taken_up_as_made(action: HabitMissedExplicitAction)
    ensures
        policy_of_resume(resume_of_choice(action)) == policy_of_choice(action),
        (policy_of_choice(action) == HabitMissedPolicy::Skip) == (action
            == HabitMissedExplicitAction::Skip),
        (policy_of_choice(action) == HabitMissedPolicy::Carry) == (action
            == HabitMissedExplicitAction::Carry),
        (policy_of_choice(action) == HabitMissedPolicy::ReduceFrequency) == (action
            == HabitMissedExplicitAction::ReduceFrequency),
        policy_of_choice(action) != HabitMissedPolicy::Ask,
{
}

/// What takes the place of a decision is what was found for it: a reduction that waits is
/// bound to an available occurrence where there is one and goes on waiting where there is
/// none, and any other action is taken as it is.
pub proof fn actions_are_bound_where_possible(
    derived: Option<HabitMissedResolutionAction>,
    reduction: Result<HabitMissedResolutionAction, HabitRepositoryError>,
)
    ensures
        derived is Some && !(derived->0 is ReductionPending) ==> bound_action(derived, reduction)
            == Ok::<HabitMissedResolutionAction, HabitRepositoryError>(derived->0),
        derived is Some && derived->0 is ReductionPending && reduction is Ok ==> bound_action(
            derived,
            reduction,
        ) == reduction,
        derived is Some && derived->0 is ReductionPending && reduction is Err
            && reduction->Err_0 is MissedReductionUnavailable ==> bound_action(derived, reduction)
            == Ok::<HabitMissedResolutionAction, HabitRepositoryError>(
            HabitMissedResolutionAction::ReductionPending,
        ),
        bound_action(derived, reduction) is Err <==> derived is None || (derived->0
            is ReductionPending && reduction is Err && !(reduction->Err_0
            is MissedReductionUnavailable)),
        action_of_step(MissedStep::Keep, derived, reduction) == Ok::<
            Option<HabitMissedResolutionAction>,
            HabitRepositoryError,
        >(None),
        forall|policy: HabitMissedPolicy| derived is Some ==> #[trigger] action_of_step(
            MissedStep::Derive { policy, binds_reduction: false },
            derived,
            reduction,
        ) == Ok::<Option<HabitMissedResolutionAction>, HabitRepositoryError>(derived),
        forall|policy: HabitMissedPolicy| bound_action(derived, reduction) is Ok
            ==> #[trigger] action_of_step(
            MissedStep::Derive { policy, binds_reduction: true },
            derived,
            reduction,
        ) == Ok::<Option<HabitMissedResolutionAction>, HabitRepositoryError>(
            Some(bound_action(derived, reduction)->Ok_0),
        ),
        forall|action: HabitMissedResolutionAction| #[trigger]
            action_of_step(MissedStep::Replace(action), derived, reduction) == Ok::<
                Option<HabitMissedResolutionAction>,
                HabitRepositoryError,
            >(Some(action)),
{
}

/// A decision that is changed keeps what it is about and the policy under which it was taken,
/// and a first decision is about the occurrence that it is taken for.
pub proof fn decisions_stay_with_their_occurrence(
    occurrence: HabitOccurrence,
    policy: HabitMissedPolicy,
    current: HabitMissedResolution,
    action: HabitMissedResolutionAction,
    now: Instant,
)
    requires
        current.revision < i64::MAX,
    ensures
        ({
            let next = next_resolution(current, action, now);
            &&& next.action == action
            &&& next.revision == current.revision + 1
            &&& next.updated_at == now
            &&& next.created_at == current.created_at
            &&& next.occurrence_evidence_id == current.occurrence_evidence_id
            &&& next.habit_id == current.habit_id
            &&& next.source_planner_occurrence_id == current.source_planner_occurrence_id
            &&& next.configured_policy == current.configured_policy
        }),
        ({
            let first = first_resolution(occurrence, policy, action, now);
            &&& first.action == action
            &&& first.revision == 1
            &&& first.configured_policy == policy
            &&& first.created_at == now
            &&& first.updated_at == now
            &&& first.occurrence_evidence_id == occurrence.evidence.id
            &&& first.habit_id == occurrence.evidence.habit_id
            &&& first.source_planner_occurrence_id == occurrence.evidence.planner_occurrence_id
        }),
{
}

/// A choice is refused exactly if there is no such habit or no open question, the habit is not
/// as the one who chooses knows it, or the question is at another revision. The refusal is
/// true.
pub proof fn choices_answer_open_questions(
    item: Option<HabitItemState>,
    occurrence: Option<HabitOccurrence>,
    write: MissedResolveWrite,
)
    ensures
        (resolve_refusal(item, occurrence, write) is None) <==> {
            &&& item is Some
            &&& item->0.policy_readable
            &&& item->0.revision == write.current_item_revision
            &&& write.current_item_is_active == (!item->0.trashed && item->0.has_recurrence
                && item->0.is_leaf && item->0.status@ != "completed"@ && item->0.status@
                != "skipped"@ && item->0.status@ != "cancelled"@ && item->0.status@ != "blocked"@)
            &&& occurrence is Some
            &&& occurrence->0.missed_resolution is Some
            &&& occurrence->0.missed_resolution->0.revision == write.expected_revision
            &&& occurrence->0.missed_resolution->0.action is DecisionRequired
        },
        match resolve_refusal(item, occurrence, write) {
            None => true,
            Some(HabitRepositoryError::HabitNotFound(id)) => id == write.habit_id && item is None,
            Some(HabitRepositoryError::Internal) => item is Some && (!item->0.policy_readable
                || item->0.revision < 0),
            Some(HabitRepositoryError::EvidenceConflict) => item is Some && (item->0.revision
                != write.current_item_revision || item_active(item->0)
                != write.current_item_is_active),
            Some(HabitRepositoryError::MissedResolutionNotFound(id)) => id == write.occurrence_id
                && (occurrence is None || occurrence->0.missed_resolution is None),
            Some(HabitRepositoryError::RevisionConflict { expected, actual, .. }) => expected
                == write.expected_revision && expected != actual && occurrence is Some
                && occurrence->0.missed_resolution is Some
                && occurrence->0.missed_resolution->0.revision == actual,
            Some(HabitRepositoryError::MissedResolutionAlreadyResolved(current)) => occurrence
                is Some && occurrence->0.missed_resolution == Some(*current) && !(current.action
                is DecisionRequired),
            Some(_) => false,
        },
{
}

/// A choice for an occurrence about which something is still to be done is followed, and one
/// about which nothing is any more is kept as a cancellation that remembers it.
pub proof fn choices_are_followed_or_remembered(
    occurrence: HabitOccurrence,
    pauses: Seq<HabitPause>,
    write: MissedResolveWrite,
)
    ensures
        ({
            let reason = cancellation_reason(
                occurrence,
                HabitMissedConfiguration {
                    item_revision: write.current_item_revision,
                    policy_fingerprint: write.current_policy_fingerprint,
                    policy: HabitMissedPolicy::Ask,
                    is_active: write.current_item_is_active,
                },
                None,
                pauses,
            );
            match resolve_action_step(occurrence, pauses, write) {
                MissedStep::Derive { policy, binds_reduction } => reason is None && binds_reduction
                    && policy == policy_of_choice(write.action),
                MissedStep::Replace(action) => reason is Some && cancels_choice(action)
                    && action is Cancelled && action->reason == reason->0 && policy_of_resume(
                    action->resume_action,
                ) == policy_of_choice(write.action),
                MissedStep::Keep => false,
            }
        }),
        forall|action: HabitMissedResolutionAction|
            #[trigger] cancels_choice(action) <==> action is Cancelled && action->resume_action
                != HabitMissedResumeAction::DecisionRequired,
{
}

/// Whether a pause keeps the streak is what the habit says, and it does where the habit does
/// not say.
pub proof fn streaks_are_kept_unless_told_otherwise(constraints: Json)
    ensures
        !streak_preserved(constraints) <==> constraints.member("preserves_streak_when_paused"@)
            == Some(Json::Bool(false)),
{
}

/// A request about a habit is refused exactly if there is no such item, or the item is no
/// habit or does not recur.
pub proof fn only_recurring_habits_take_requests(habit_id: Uuid, row: Option<HabitItemRow>)
    ensures
        (habit_refusal(habit_id, row) is None) <==> row is Some && row->0.kind@ == "habit"@
            && row->0.has_recurrence,
        match habit_refusal(habit_id, row) {
            None => true,
            Some(HabitRepositoryError::HabitNotFound(id)) => id == habit_id && row is None,
            Some(HabitRepositoryError::NotHabit(id)) => id == habit_id && row is Some && (
            row->0.kind@ != "habit"@ || !row->0.has_recurrence),
            Some(_) => false,
        },
{
}

/// A habit can be paused exactly if it is a recurring habit, the request knows how the habit
/// treats streaks and expects no pause to be there, no pause has the same identifier, and
/// every pause of the habit is over when the new one begins.
pub proof fn habits_are_paused_once_at_a_time(
    row: Option<HabitItemRow>,
    pauses: Seq<HabitPause>,
    create: PauseCreate,
)
    ensures
        pause_accepted(row, pauses, create) <==> {
            &&& row is Some && row->0.kind@ == "habit"@ && row->0.has_recurrence
            &&& create.preserves_streak == (row->0.constraints.member(
                "preserves_streak_when_paused"@,
            ) != Some(Json::Bool(false)))
            &&& create.expected_revision == 0
            &&& forall|k: int|
                0 <= k < pauses.len() ==> (#[trigger] pauses[k]).id != create.id && (
                pauses[k].habit_id == create.habit_id ==> pauses[k].ended_at is Some
                    && pauses[k].ended_at->0 <= create.started_at)
        },
        ({
            let made = created_pause(create);
            &&& made.id == create.id
            &&& made.habit_id == create.habit_id
            &&& made.started_at == create.started_at
            &&& made.ended_at is None
            &&& made.revision == 1
            &&& made.preserves_streak == create.preserves_streak
            &&& made.created_at == create.recorded_at
            &&& made.updated_at == create.recorded_at
            &&& forall|at: Instant| #[trigger] rests_at(made, at) <==> create.started_at <= at
        }),
{
    if pause_accepted(row, pauses, create) {
        assert forall|k: int| 0 <= k < pauses.len() implies (#[trigger] pauses[k]).id != create.id
            && (pauses[k].habit_id == create.habit_id ==> pauses[k].ended_at is Some
            && pauses[k].ended_at->0 <= create.started_at) by {
            assert(!crate::habits::pauses::reaches_past(
                pauses[k],
                create.habit_id,
                create.started_at,
            ));
        }
    }
}

/// The pause that a refused pause is told to be in conflict with is in its way: it has its
/// identifier, or it is one of the same habit that is still open or ends too late.
pub proof fn conflicting_pauses_are_in_the_way(
    pauses: Seq<HabitPause>,
    create: PauseCreate,
    error: HabitRepositoryError,
)
    requires
        pause_conflict(pauses, create, error),
    ensures
        match error {
            HabitRepositoryError::PauseIdentityConflict(other) => other.id == create.id
                && pauses.contains(*other),
            HabitRepositoryError::OpenPauseConflict(other) => pauses.contains(*other)
                && other.habit_id == create.habit_id && (other.ended_at is None
                || create.started_at < other.ended_at->0),
            _ => false,
        },
{
    if crate::habits::pauses::has_pause(pauses, create.id) {
        let k = choose|k: int|
            #![trigger pauses[k]]
            0 <= k < pauses.len() && pauses[k].id == create.id && error
                == HabitRepositoryError::PauseIdentityConflict(Box::new(pauses[k]));
        assert(pauses.contains(pauses[k]));
    } else if crate::habits::pauses::has_open_pause(pauses, create.habit_id) {
        let k = choose|k: int|
            #![trigger pauses[k]]
            0 <= k < pauses.len() && pauses[k].habit_id == create.habit_id && pauses[k].ended_at
                is None && error == HabitRepositoryError::OpenPauseConflict(Box::new(pauses[k]));
        assert(pauses.contains(pauses[k]));
    }
}

/// The request to begin a pause is refused before the other pauses are looked at for what is
/// true of it.
pub proof fn refusal_of_a_pause_is_true(row: Option<HabitItemRow>, create: PauseCreate)
    ensures
        match pause_request_refusal(row, create) {
            None => row is Some,
            Some(HabitRepositoryError::HabitNotFound(id)) => id == create.habit_id && row is None,
            Some(HabitRepositoryError::NotHabit(id)) => id == create.habit_id && row is Some && (
            row->0.kind@ != "habit"@ || !row->0.has_recurrence),
            Some(HabitRepositoryError::EvidenceConflict) => streak_preserved(row->0.constraints)
                != create.preserves_streak,
            Some(HabitRepositoryError::RevisionConflict { expected, actual, .. }) => expected
                == create.expected_revision && expected > 0 && actual == 0,
            Some(_) => false,
        },
{
}

/// A pause ends exactly if it is there and open, at the revision that the request names, and
/// the end comes after the beginning. Then the habit rests until the end and not after it, and
/// as before at every earlier instant.
pub proof fn pauses_end_when_told(
    row: Option<HabitItemRow>,
    pause: Option<HabitPause>,
    resume: PauseResume,
    at: Instant,
)
    ensures
        (resume_refusal(row, pause, resume) is None) <==> {
            &&& row is Some && row->0.kind@ == "habit"@ && row->0.has_recurrence
            &&& pause is Some
            &&& pause->0.revision == resume.expected_revision
            &&& pause->0.revision < i64::MAX
            &&& pause->0.ended_at is None
            &&& pause->0.started_at < resume.ended_at
        },
        resume_refusal(row, pause, resume) is None ==> {
            let ended = resumed_pause(pause->0, resume);
            &&& rests_at(ended, at) <==> rests_at(pause->0, at) && at < resume.ended_at
            &&& ended.ended_at == Some(resume.ended_at)
            &&& ended.started_at == pause->0.started_at
            &&& ended.revision == pause->0.revision + 1
            &&& ended.updated_at == resume.recorded_at
            &&& ended.created_at == pause->0.created_at
            &&& ended.id == pause->0.id
            &&& ended.habit_id == pause->0.habit_id
            &&& ended.preserves_streak == pause->0.preserves_streak
        },
        match resume_refusal(row, pause, resume) {
            Some(HabitRepositoryError::PauseNotFound(id)) => id == resume.id && pause is None,
            Some(HabitRepositoryError::RevisionConflict { expected, actual, .. }) => pause is Some
                && expected == resume.expected_revision && actual == pause->0.revision && expected
                != actual,
            Some(HabitRepositoryError::PauseAlreadyClosed(current)) => pause == Some(*current)
                && current.ended_at is Some,
            Some(HabitRepositoryError::InvalidPauseInterval) => pause is Some && resume.ended_at
                <= pause->0.started_at,
            Some(HabitRepositoryError::Internal) => pause is Some && pause->0.revision >= i64::MAX,
            Some(HabitRepositoryError::HabitNotFound(_)) => row is None,
            Some(HabitRepositoryError::NotHabit(_)) => row is Some,
            Some(_) => false,
            None => true,
        },
{
}

/// A report is stored exactly if it is about a recurring habit and an occurrence that is
/// there, was made for what is known of it, and counts in the unit that the occurrence
/// expects. Then it is stored as it was made.
pub proof fn reports_are_stored_as_made(
    row: Option<HabitItemRow>,
    occurrence: Option<HabitOccurrence>,
    write: OutcomeWrite,
    plan: OutcomePlan,
)
    requires
        occurrence is Some && occurrence->0.outcome is Some ==> occurrence->0.outcome->0.revision
            < i64::MAX,
        write.outcome.actual_seconds is Some ==> write.outcome.actual_seconds->0 <= i64::MAX,
    ensures
        (outcome_refusal(row, occurrence, write) is None) <==> {
            &&& row is Some && row->0.kind@ == "habit"@ && row->0.has_recurrence
            &&& occurrence is Some
            &&& occurrence->0.outcome is None ==> write.expected_revision == 0
            &&& occurrence->0.outcome is Some ==> write.expected_revision
                == occurrence->0.outcome->0.revision
            &&& occurrence->0.evidence.expected_unit is Some && write.outcome.unit is Some
                ==> occurrence->0.evidence.expected_unit->0@ == write.outcome.unit->0@
        },
        occurrence is Some && outcome_plan_fits(occurrence->0, write, plan) ==> {
            let stored = plan.updated.outcome->0;
            &&& plan.updated.outcome is Some
            &&& stored.status == write.outcome.status
            &&& stored.progress_basis_points == write.outcome.progress_basis_points
            &&& stored.quantity == write.outcome.quantity
            &&& stored.unit == write.outcome.unit
            &&& stored.actual_seconds == write.outcome.actual_seconds
            &&& stored.note == write.outcome.note
            &&& stored.occurred_at == write.outcome.occurred_at
            &&& stored.updated_at == write.recorded_at
            &&& stored.revision == plan.revision
            &&& plan.revision == plan.previous_revision + 1
            &&& plan.updated.evidence == occurrence->0.evidence
            &&& plan.updated.missed_resolution == occurrence->0.missed_resolution
            &&& plan.previous_outcome == occurrence->0.outcome
        },
        match outcome_refusal(row, occurrence, write) {
            Some(HabitRepositoryError::HabitNotFound(_)) => row is None,
            Some(HabitRepositoryError::NotHabit(_)) => row is Some,
            Some(HabitRepositoryError::OccurrenceNotFound(id)) => id == write.occurrence_id
                && occurrence is None,
            Some(HabitRepositoryError::RevisionConflict { expected, actual, .. }) => expected
                == write.expected_revision && expected != actual && occurrence is Some,
            Some(HabitRepositoryError::TargetUnitMismatch) => occurrence is Some
                && occurrence->0.evidence.expected_unit is Some && write.outcome.unit is Some,
            Some(_) => false,
            None => true,
        },
{
}

/// A page of the stream holds what was read, up to its limit, and an entry can be given out
/// exactly if it can be read and its parts belong together.
pub proof fn pages_hold_what_was_read(rows: nat, limit: usize, row: HabitChangeRow)
    ensures
        page_length(rows, limit) <= rows,
        page_length(rows, limit) <= limit,
        page_length(rows, limit) == rows || page_length(rows, limit) == limit,
        change_readable(row) <==> row.sequence >= 0 && row.change is Some && (row.change->0
            is OccurrenceUpsert ==> row.content_valid && parts_belong(
            row.change->0->OccurrenceUpsert_occurrence,
        )),
        row.change is Some && row.change->0 is PauseUpsert && row.sequence >= 0 ==> change_readable(
            row,
        ),
{
}

/// Whether the decision about an occurrence is about that occurrence, and does not leave it
/// out for itself.
pub open spec fn parts_belong(occurrence: HabitOccurrence) -> bool {
    occurrence.missed_resolution is Some ==> {
        let decided = occurrence.missed_resolution->0;
        &&& decided.occurrence_evidence_id == occurrence.evidence.id
        &&& decided.habit_id == occurrence.evidence.habit_id
        &&& decided.source_planner_occurrence_id == occurrence.evidence.planner_occurrence_id
        &&& decided.action is ReduceFrequency
            ==> !decided.action->suppressed_planner_occurrence_ids@.contains(
            occurrence.evidence.planner_occurrence_id,
        )
    }
}

/// A cancelled action that is taken up again is the action that was cancelled.
pub proof fn cancellations_remember_the_action(action: HabitMissedResolutionAction)
    ensures
        (resume_of(action) is None) == (action is Cancelled),
        (resume_of(action) == Some(HabitMissedResumeAction::Skip)) == (action is Skip),
        (resume_of(action) == Some(HabitMissedResumeAction::Carry)) == (action is Carry),
        (resume_of(action) == Some(HabitMissedResumeAction::DecisionRequired)) == (action
            is DecisionRequired),
        (resume_of(action) == Some(HabitMissedResumeAction::ReduceFrequency)) == (action
            is ReduceFrequency || action is ReductionPending),
{
}

} // verus!
