//! What becomes of missed occurrences: when a decision stops to apply, when it has to
//! be taken again, and what is decided.
use vstd::prelude::*;

use crate::habits::model::{
    to_i64, HabitMissedCancellationReason, HabitMissedConfiguration, HabitMissedExplicitAction,
    HabitMissedPolicy, HabitMissedResolution, HabitMissedResolutionAction, HabitMissedResumeAction,
    HabitOccurrence, HabitOutcomeStatus, HabitPause, HabitRepositoryError,
};
use crate::habits::pauses::is_paused;
use crate::hashing::encoded_hash;
use crate::text::same_text;
use crate::time::{Instant, Uuid};

verus! {

/// The action that is taken up again when a cancelled action applies again.
pub open spec fn resume_of(action: HabitMissedResolutionAction) -> Option<HabitMissedResumeAction> {
    match action {
        HabitMissedResolutionAction::DecisionRequired => Some(
            HabitMissedResumeAction::DecisionRequired,
        ),
        HabitMissedResolutionAction::Skip => Some(HabitMissedResumeAction::Skip),
        HabitMissedResolutionAction::Carry { .. } => Some(HabitMissedResumeAction::Carry),
        HabitMissedResolutionAction::ReductionPending => Some(
            HabitMissedResumeAction::ReduceFrequency,
        ),
        HabitMissedResolutionAction::ReduceFrequency { .. } => Some(
            HabitMissedResumeAction::ReduceFrequency,
        ),
        HabitMissedResolutionAction::Cancelled { .. } => None,
    }
}

/// The action that is taken up again when a cancelled action applies again. A
/// cancellation itself is not taken up again.
pub fn missed_resume_action(action: &HabitMissedResolutionAction) -> (result: Option<
    HabitMissedResumeAction,
>)
    ensures
        result == resume_of(*action),
{
    match action {
        HabitMissedResolutionAction::DecisionRequired => Some(
            HabitMissedResumeAction::DecisionRequired,
        ),
        HabitMissedResolutionAction::Skip => Some(HabitMissedResumeAction::Skip),
        HabitMissedResolutionAction::Carry { .. } => Some(HabitMissedResumeAction::Carry),
        HabitMissedResolutionAction::ReductionPending => Some(
            HabitMissedResumeAction::ReduceFrequency,
        ),
        HabitMissedResolutionAction::ReduceFrequency { .. } => Some(
            HabitMissedResumeAction::ReduceFrequency,
        ),
        HabitMissedResolutionAction::Cancelled { .. } => None,
    }
}

/// The policy under which an action is taken up again.
pub open spec fn policy_of_resume(resume_action: HabitMissedResumeAction) -> HabitMissedPolicy {
    match resume_action {
        HabitMissedResumeAction::DecisionRequired => HabitMissedPolicy::Ask,
        HabitMissedResumeAction::Skip => HabitMissedPolicy::Skip,
        HabitMissedResumeAction::Carry => HabitMissedPolicy::Carry,
        HabitMissedResumeAction::ReduceFrequency => HabitMissedPolicy::ReduceFrequency,
    }
}

/// The policy under which an action is taken up again.
pub fn restore_policy(resume_action: HabitMissedResumeAction) -> (result: HabitMissedPolicy)
    ensures
        result == policy_of_resume(resume_action),
{
    match resume_action {
        HabitMissedResumeAction::DecisionRequired => HabitMissedPolicy::Ask,
        HabitMissedResumeAction::Skip => HabitMissedPolicy::Skip,
        HabitMissedResumeAction::Carry => HabitMissedPolicy::Carry,
        HabitMissedResumeAction::ReduceFrequency => HabitMissedPolicy::ReduceFrequency,
    }
}

/// The policy that a choice stands for.
pub open spec fn policy_of_choice(action: HabitMissedExplicitAction) -> HabitMissedPolicy {
    match action {
        HabitMissedExplicitAction::Skip => HabitMissedPolicy::Skip,
        HabitMissedExplicitAction::Carry => HabitMissedPolicy::Carry,
        HabitMissedExplicitAction::ReduceFrequency => HabitMissedPolicy::ReduceFrequency,
    }
}

/// The policy that a choice stands for.
pub fn explicit_policy(action: HabitMissedExplicitAction) -> (result: HabitMissedPolicy)
    ensures
        result == policy_of_choice(action),
{
    match action {
        HabitMissedExplicitAction::Skip => HabitMissedPolicy::Skip,
        HabitMissedExplicitAction::Carry => HabitMissedPolicy::Carry,
        HabitMissedExplicitAction::ReduceFrequency => HabitMissedPolicy::ReduceFrequency,
    }
}

/// What is taken up again of a choice.
pub open spec fn resume_of_choice(action: HabitMissedExplicitAction) -> HabitMissedResumeAction {
    match action {
        HabitMissedExplicitAction::Skip => HabitMissedResumeAction::Skip,
        HabitMissedExplicitAction::Carry => HabitMissedResumeAction::Carry,
        HabitMissedExplicitAction::ReduceFrequency => HabitMissedResumeAction::ReduceFrequency,
    }
}

/// What is taken up again of a choice.
pub fn explicit_resume_action(action: HabitMissedExplicitAction) -> (result:
    HabitMissedResumeAction)
    ensures
        result == resume_of_choice(action),
{
    match action {
        HabitMissedExplicitAction::Skip => HabitMissedResumeAction::Skip,
        HabitMissedExplicitAction::Carry => HabitMissedResumeAction::Carry,
        HabitMissedExplicitAction::ReduceFrequency => HabitMissedResumeAction::ReduceFrequency,
    }
}

/// A later occurrence that a reduction leaves out, as it is at present.
#[derive(Clone, Copy, Debug, PartialEq, Eq, Structural)]
pub struct ReductionTarget {
    /// Nobody has reported on the occurrence yet.
    pub outcome_eligible: bool,
    /// The habit rests at the time of the occurrence.
    pub paused: bool,
    /// The published schedule covers the time of the occurrence.
    pub horizon_covers_target: bool,
    /// The occurrence is part of the published schedule, under the present policy.
    pub current_member: bool,
}

/// Whether an occurrence can no longer be left out for another.
pub open spec fn target_lost(target: ReductionTarget) -> bool {
    ||| !target.outcome_eligible
    ||| target.paused
    ||| target.horizon_covers_target && !target.current_member
}

/// The time that a missed occurrence stands for: its own window, or the window that it
/// was carried to. `carried_before` is the window that it was carried to before the
/// carry was cancelled.
pub open spec fn source_window(
    occurrence: HabitOccurrence,
    carried_before: Option<(Instant, Instant)>,
) -> (Instant, Instant) {
    let own = (occurrence.evidence.window_start, occurrence.evidence.window_end);
    match occurrence.missed_resolution {
        None => own,
        Some(resolution) => match resolution.action {
            HabitMissedResolutionAction::Carry { window_start, window_end } => (
                window_start,
                window_end,
            ),
            HabitMissedResolutionAction::Cancelled {
                resume_action: HabitMissedResumeAction::Carry,
                ..
            } => match carried_before {
                Some(window) => window,
                None => own,
            },
            _ => own,
        },
    }
}

/// How an occurrence turned out, if it is known.
pub open spec fn outcome_status(occurrence: HabitOccurrence) -> Option<HabitOutcomeStatus> {
    match occurrence.outcome {
        Some(outcome) => Some(outcome.status),
        None => None,
    }
}

/// Whether an occurrence was planned under the present policy of its habit.
pub open spec fn under_present_policy(
    occurrence: HabitOccurrence,
    configuration: HabitMissedConfiguration,
) -> bool {
    occurrence.evidence.policy_fingerprint@ == crate::hashing::prefixed_text(
        configuration.policy_fingerprint@,
    )
}

/// Why nothing is to be done about a missed occurrence any more.
pub open spec fn cancellation_reason(
    occurrence: HabitOccurrence,
    configuration: HabitMissedConfiguration,
    carried_before: Option<(Instant, Instant)>,
    pauses: Seq<HabitPause>,
) -> Option<HabitMissedCancellationReason> {
    let window = source_window(occurrence, carried_before);
    if !configuration.is_active {
        Some(HabitMissedCancellationReason::SourceObsolete)
    } else if outcome_status(occurrence) == Some(HabitOutcomeStatus::Completed) {
        Some(HabitMissedCancellationReason::SourceCompleted)
    } else if outcome_status(occurrence) == Some(HabitOutcomeStatus::Skipped) {
        Some(HabitMissedCancellationReason::SourceSkipped)
    } else if crate::habits::pauses::habit_paused(
        pauses,
        occurrence.evidence.habit_id,
        window.0,
        window.1,
    ) {
        Some(HabitMissedCancellationReason::SourcePaused)
    } else if !under_present_policy(occurrence, configuration) {
        Some(HabitMissedCancellationReason::SourceObsolete)
    } else {
        None
    }
}

/// Why nothing is to be done about a missed occurrence any more. `pauses` are the
/// pauses of its habit; `carried_before` is the window that it was carried to before
/// the carry was cancelled.
pub fn source_cancellation_reason(
    occurrence: &HabitOccurrence,
    configuration: &HabitMissedConfiguration,
    carried_before: Option<(Instant, Instant)>,
    pauses: &Vec<HabitPause>,
) -> (result: Option<HabitMissedCancellationReason>)
    ensures
        result == cancellation_reason(*occurrence, *configuration, carried_before, pauses@),
{
    if !configuration.is_active {
        return Some(HabitMissedCancellationReason::SourceObsolete);
    }
    match &occurrence.outcome {
        Some(outcome) => {
            if outcome.status == HabitOutcomeStatus::Completed {
                return Some(HabitMissedCancellationReason::SourceCompleted);
            }
            if outcome.status == HabitOutcomeStatus::Skipped {
                return Some(HabitMissedCancellationReason::SourceSkipped);
            }
        },
        None => {},
    }
    let own: (Instant, Instant) = (
        occurrence.evidence.window_start,
        occurrence.evidence.window_end,
    );
    let window: (Instant, Instant) = match &occurrence.missed_resolution {
        None => own,
        Some(resolution) => match &resolution.action {
            HabitMissedResolutionAction::Carry { window_start, window_end } => (
                *window_start,
                *window_end,
            ),
            HabitMissedResolutionAction::Cancelled { resume_action, .. } => if *resume_action
                == HabitMissedResumeAction::Carry {
                match carried_before {
                    Some(carried) => carried,
                    None => own,
                }
            } else {
                own
            },
            _ => own,
        },
    };
    if is_paused(pauses, occurrence.evidence.habit_id, window.0, window.1) {
        return Some(HabitMissedCancellationReason::SourcePaused);
    }
    let present: String = encoded_hash(configuration.policy_fingerprint);
    if !same_text(occurrence.evidence.policy_fingerprint.as_str(), present.as_str()) {
        return Some(HabitMissedCancellationReason::SourceObsolete);
    }
    None
}

/// Whether a reduction has lost the occurrence that it leaves out.
pub open spec fn reduction_lost(
    action: HabitMissedResolutionAction,
    target: Option<ReductionTarget>,
) -> bool {
    match action {
        HabitMissedResolutionAction::ReduceFrequency { suppressed_planner_occurrence_ids } => {
            ||| suppressed_planner_occurrence_ids@.len() == 0
            ||| target is None
            ||| target_lost(target->0)
        },
        _ => false,
    }
}

/// Whether a reduction has to look for another occurrence to leave out. `target` is
/// the occurrence that it leaves out, if it is known.
pub fn bound_reduction_needs_rebind(
    action: &HabitMissedResolutionAction,
    target: Option<ReductionTarget>,
) -> (result: bool)
    ensures
        result == reduction_lost(*action, target),
{
    match action {
        HabitMissedResolutionAction::ReduceFrequency { suppressed_planner_occurrence_ids } => {
            if suppressed_planner_occurrence_ids.len() == 0 {
                return true;
            }
            match target {
                None => true,
                Some(facts) => !facts.outcome_eligible || facts.paused || (
                facts.horizon_covers_target && !facts.current_member),
            }
        },
        _ => false,
    }
}

/// What is to be done about a decision.
#[derive(Debug)]
pub enum MissedStep {
    /// It stands.
    Keep,
    /// This takes its place.
    Replace(HabitMissedResolutionAction),
    /// What takes its place follows from a policy. If that is a reduction, an
    /// occurrence to leave out is looked for where `binds_reduction` holds.
    Derive { policy: HabitMissedPolicy, binds_reduction: bool },
}

/// What is to be done about a decision.
pub open spec fn maintenance_step(
    occurrence: HabitOccurrence,
    current: HabitMissedResolution,
    configuration: HabitMissedConfiguration,
    carried_before: Option<(Instant, Instant)>,
    pauses: Seq<HabitPause>,
    target: Option<ReductionTarget>,
    now: Instant,
) -> MissedStep {
    match cancellation_reason(occurrence, configuration, carried_before, pauses) {
        Some(reason) => match resume_of(current.action) {
            Some(resume_action) => MissedStep::Replace(
                HabitMissedResolutionAction::Cancelled { reason, resume_action },
            ),
            None => MissedStep::Keep,
        },
        None => match current.action {
            HabitMissedResolutionAction::Cancelled { resume_action, .. } => MissedStep::Derive {
                policy: policy_of_resume(resume_action),
                binds_reduction: true,
            },
            HabitMissedResolutionAction::ReduceFrequency { .. } => if reduction_lost(
                current.action,
                target,
            ) {
                MissedStep::Replace(HabitMissedResolutionAction::ReductionPending)
            } else {
                MissedStep::Keep
            },
            HabitMissedResolutionAction::Carry { window_end, .. } => if window_end <= now {
                if current.configured_policy == HabitMissedPolicy::Ask {
                    MissedStep::Replace(HabitMissedResolutionAction::DecisionRequired)
                } else {
                    MissedStep::Derive { policy: HabitMissedPolicy::Carry, binds_reduction: false }
                }
            } else {
                MissedStep::Keep
            },
            _ => MissedStep::Keep,
        },
    }
}

/// What is to be done about the decision for a missed occurrence: it is cancelled when
/// nothing is to be done any more, it is taken up again when something is to be done
/// again, and it is renewed when its window has passed or the occurrence that it leaves
/// out is lost.
pub fn maintenance_action(
    occurrence: &HabitOccurrence,
    configuration: &HabitMissedConfiguration,
    carried_before: Option<(Instant, Instant)>,
    pauses: &Vec<HabitPause>,
    target: Option<ReductionTarget>,
    now: Instant,
) -> (result: Result<MissedStep, HabitRepositoryError>)
    ensures
        match occurrence.missed_resolution {
            None => result == Err::<MissedStep, HabitRepositoryError>(
                HabitRepositoryError::Internal,
            ),
            Some(current) => result == Ok::<MissedStep, HabitRepositoryError>(
                maintenance_step(
                    *occurrence,
                    current,
                    *configuration,
                    carried_before,
                    pauses@,
                    target,
                    now,
                ),
            ),
        },
{
    let current: &HabitMissedResolution = match &occurrence.missed_resolution {
        Some(current) => current,
        None => {
            return Err(HabitRepositoryError::Internal);
        },
    };
    match source_cancellation_reason(occurrence, configuration, carried_before, pauses) {
        Some(reason) => {
            return match missed_resume_action(&current.action) {
                Some(resume_action) => Ok(
                    MissedStep::Replace(
                        HabitMissedResolutionAction::Cancelled { reason, resume_action },
                    ),
                ),
                None => Ok(MissedStep::Keep),
            };
        },
        None => {},
    }
    match &current.action {
        HabitMissedResolutionAction::Cancelled { resume_action, .. } => Ok(
            MissedStep::Derive { policy: restore_policy(*resume_action), binds_reduction: true },
        ),
        HabitMissedResolutionAction::ReduceFrequency { .. } => {
            if bound_reduction_needs_rebind(&current.action, target) {
                Ok(MissedStep::Replace(HabitMissedResolutionAction::ReductionPending))
            } else {
                Ok(MissedStep::Keep)
            }
        },
        HabitMissedResolutionAction::Carry { window_end, .. } => {
            if *window_end <= now {
                if current.configured_policy == HabitMissedPolicy::Ask {
                    Ok(MissedStep::Replace(HabitMissedResolutionAction::DecisionRequired))
                } else {
                    Ok(
                        MissedStep::Derive {
                            policy: HabitMissedPolicy::Carry,
                            binds_reduction: false,
                        },
                    )
                }
            } else {
                Ok(MissedStep::Keep)
            }
        },
        _ => Ok(MissedStep::Keep),
    }
}

/// Whether `action` leaves out exactly the occurrence `target`.
pub open spec fn reduces_by(action: HabitMissedResolutionAction, target: Uuid) -> bool {
    match action {
        HabitMissedResolutionAction::ReduceFrequency { suppressed_planner_occurrence_ids } => {
            suppressed_planner_occurrence_ids@ == seq![target]
        },
        _ => false,
    }
}

/// The reduction that leaves out an available occurrence. `ordinal` is the place of the
/// missed occurrence in its series, without which none can be looked for.
pub fn reduction_action(ordinal: Option<u32>, available: Option<Uuid>) -> (result: Result<
    HabitMissedResolutionAction,
    HabitRepositoryError,
>)
    ensures
        match result {
            Ok(action) => ordinal is Some && available is Some && reduces_by(action, available->0),
            Err(error) => if ordinal is None {
                error == HabitRepositoryError::Internal
            } else {
                available is None && error == HabitRepositoryError::MissedReductionUnavailable
            },
        },
{
    if ordinal.is_none() {
        return Err(HabitRepositoryError::Internal);
    }
    match available {
        None => Err(HabitRepositoryError::MissedReductionUnavailable),
        Some(target) => {
            let mut suppressed_planner_occurrence_ids: Vec<Uuid> = Vec::new();
            suppressed_planner_occurrence_ids.push(target);
            assert(suppressed_planner_occurrence_ids@ =~= seq![target]);
            Ok(HabitMissedResolutionAction::ReduceFrequency { suppressed_planner_occurrence_ids })
        },
    }
}

/// The action that follows from a policy: a reduction leaves out an available
/// occurrence, and waits where none is available.
///
/// `derived` is the action that the rules of the policy give, if they give one;
/// `reduction` is the reduction that an available occurrence allows.
pub open spec fn bound_action(
    derived: Option<HabitMissedResolutionAction>,
    reduction: Result<HabitMissedResolutionAction, HabitRepositoryError>,
) -> Result<HabitMissedResolutionAction, HabitRepositoryError> {
    match derived {
        None => Err(HabitRepositoryError::Internal),
        Some(HabitMissedResolutionAction::ReductionPending) => match reduction {
            Ok(action) => Ok(action),
            Err(HabitRepositoryError::MissedReductionUnavailable) => Ok(
                HabitMissedResolutionAction::ReductionPending,
            ),
            Err(error) => Err(error),
        },
        Some(action) => Ok(action),
    }
}

/// The action that follows from a policy.
pub fn missed_action(
    derived: Option<HabitMissedResolutionAction>,
    reduction: Result<HabitMissedResolutionAction, HabitRepositoryError>,
) -> (result: Result<HabitMissedResolutionAction, HabitRepositoryError>)
    ensures
        result == bound_action(derived, reduction),
{
    match derived {
        None => Err(HabitRepositoryError::Internal),
        Some(HabitMissedResolutionAction::ReductionPending) => match reduction {
            Ok(action) => Ok(action),
            Err(HabitRepositoryError::MissedReductionUnavailable) => Ok(
                HabitMissedResolutionAction::ReductionPending,
            ),
            Err(error) => Err(error),
        },
        Some(action) => Ok(action),
    }
}

/// The action that takes the place of a decision, if one does, once it is known what is to
/// be done about the decision.
pub open spec fn action_of_step(
    step: MissedStep,
    derived: Option<HabitMissedResolutionAction>,
    reduction: Result<HabitMissedResolutionAction, HabitRepositoryError>,
) -> Result<Option<HabitMissedResolutionAction>, HabitRepositoryError> {
    match step {
        MissedStep::Keep => Ok(None),
        MissedStep::Replace(action) => Ok(Some(action)),
        MissedStep::Derive { binds_reduction, .. } => if binds_reduction {
            match bound_action(derived, reduction) {
                Ok(action) => Ok(Some(action)),
                Err(error) => Err(error),
            }
        } else {
            match derived {
                Some(action) => Ok(Some(action)),
                None => Err(HabitRepositoryError::Internal),
            }
        },
    }
}

/// The action that takes the place of a decision, if one does.
///
/// `derived` is the action that the rules of the policy of `step` give, if they give one;
/// `reduction` is the reduction that is possible at present.
pub fn maintained_action(
    step: MissedStep,
    derived: Option<HabitMissedResolutionAction>,
    reduction: Result<HabitMissedResolutionAction, HabitRepositoryError>,
) -> (result: Result<Option<HabitMissedResolutionAction>, HabitRepositoryError>)
    ensures
        result == action_of_step(step, derived, reduction),
{
    match step {
        MissedStep::Keep => Ok(None),
        MissedStep::Replace(action) => Ok(Some(action)),
        MissedStep::Derive { binds_reduction, .. } => if binds_reduction {
            match missed_action(derived, reduction) {
                Ok(action) => Ok(Some(action)),
                Err(error) => Err(error),
            }
        } else {
            match derived {
                Some(action) => Ok(Some(action)),
                None => Err(HabitRepositoryError::Internal),
            }
        },
    }
}

/// Whether a stored decision may be replaced by another: the rules allow it, or the
/// rules for a choice that was cancelled allow it and this is such a choice.
pub fn transition_allowed(
    transition_valid: bool,
    explicit_selection: bool,
    explicit_transition_valid: bool,
) -> (result: Result<(), HabitRepositoryError>)
    ensures
        result == (if transition_valid || (explicit_selection && explicit_transition_valid) {
            Ok::<(), HabitRepositoryError>(())
        } else {
            Err(HabitRepositoryError::Internal)
        }),
{
    if transition_valid || (explicit_selection && explicit_transition_valid) {
        Ok(())
    } else {
        Err(HabitRepositoryError::Internal)
    }
}

/// A decision with another action, under its next revision.
pub open spec fn next_resolution(
    current: HabitMissedResolution,
    action: HabitMissedResolutionAction,
    now: Instant,
) -> HabitMissedResolution {
    HabitMissedResolution {
        revision: (current.revision + 1) as u64,
        action,
        updated_at: now,
        ..current
    }
}

/// A decision with another action, under its next revision.
pub fn advance_resolution(
    current: &HabitMissedResolution,
    action: HabitMissedResolutionAction,
    now: Instant,
) -> (result: Result<HabitMissedResolution, HabitRepositoryError>)
    ensures
        match result {
            Ok(resolution) => current.revision < i64::MAX && resolution == next_resolution(
                *current,
                action,
                now,
            ),
            Err(error) => current.revision >= i64::MAX && error == HabitRepositoryError::Internal,
        },
{
    if current.revision == u64::MAX {
        return Err(HabitRepositoryError::Internal);
    }
    let revision: u64 = current.revision + 1;
    let _stored: i64 = to_i64(revision)?;
    Ok(
        HabitMissedResolution {
            occurrence_evidence_id: current.occurrence_evidence_id,
            habit_id: current.habit_id,
            source_planner_occurrence_id: current.source_planner_occurrence_id,
            revision,
            configured_policy: current.configured_policy,
            action,
            created_at: current.created_at,
            updated_at: now,
        },
    )
}

/// The first decision about a missed occurrence.
pub open spec fn first_resolution(
    occurrence: HabitOccurrence,
    policy: HabitMissedPolicy,
    action: HabitMissedResolutionAction,
    now: Instant,
) -> HabitMissedResolution {
    HabitMissedResolution {
        occurrence_evidence_id: occurrence.evidence.id,
        habit_id: occurrence.evidence.habit_id,
        source_planner_occurrence_id: occurrence.evidence.planner_occurrence_id,
        revision: 1,
        configured_policy: policy,
        action,
        created_at: now,
        updated_at: now,
    }
}

/// The first decision about a missed occurrence.
pub fn new_resolution(
    occurrence: &HabitOccurrence,
    policy: HabitMissedPolicy,
    action: HabitMissedResolutionAction,
    now: Instant,
) -> (result: HabitMissedResolution)
    ensures
        result == first_resolution(*occurrence, policy, action, now),
{
    HabitMissedResolution {
        occurrence_evidence_id: occurrence.evidence.id,
        habit_id: occurrence.evidence.habit_id,
        source_planner_occurrence_id: occurrence.evidence.planner_occurrence_id,
        revision: 1,
        configured_policy: policy,
        action,
        created_at: now,
        updated_at: now,
    }
}

/// Whether a decision is picked for maintenance by what is stored about it, before it
/// is looked at more closely: `item_open` says that the item of the habit is neither
/// in the trash nor in a status that ends or blocks it.
pub open spec fn maintenance_candidate(
    occurrence: HabitOccurrence,
    current: HabitMissedResolution,
    configuration: HabitMissedConfiguration,
    item_open: bool,
    carried_before: Option<(Instant, Instant)>,
    pauses: Seq<HabitPause>,
    target: Option<ReductionTarget>,
    now: Instant,
) -> bool {
    let done = outcome_status(occurrence) == Some(HabitOutcomeStatus::Completed) || outcome_status(
        occurrence,
    ) == Some(HabitOutcomeStatus::Skipped);
    let window = match current.action {
        HabitMissedResolutionAction::Carry { window_start, window_end } => (
            window_start,
            window_end,
        ),
        HabitMissedResolutionAction::Cancelled { .. } => match carried_before {
            Some(carried) => carried,
            None => (occurrence.evidence.window_start, occurrence.evidence.window_end),
        },
        _ => (occurrence.evidence.window_start, occurrence.evidence.window_end),
    };
    let paused = crate::habits::pauses::habit_paused(
        pauses,
        occurrence.evidence.habit_id,
        window.0,
        window.1,
    );
    if current.action is Cancelled {
        &&& configuration.is_active
        &&& item_open
        &&& !done
        &&& under_present_policy(occurrence, configuration)
        &&& !paused
    } else {
        ||| !configuration.is_active
        ||| !item_open
        ||| done
        ||| !under_present_policy(occurrence, configuration)
        ||| paused
        ||| current.action is Carry && current.action->Carry_window_end <= now
        ||| current.action is ReduceFrequency && target is Some && target_lost(target->0)
    }
}

/// Whatever is picked for maintenance is changed by it, so that a page of picked
/// decisions is never used up by decisions that stand.
pub proof fn maintenance_candidates_are_changed(
    occurrence: HabitOccurrence,
    current: HabitMissedResolution,
    configuration: HabitMissedConfiguration,
    item_open: bool,
    carried_before: Option<(Instant, Instant)>,
    pauses: Seq<HabitPause>,
    target: Option<ReductionTarget>,
    now: Instant,
)
    requires
        occurrence.missed_resolution == Some(current),
        configuration.is_active ==> item_open,
        carried_before is Some ==> (current.action matches HabitMissedResolutionAction::Cancelled {
            resume_action,
            ..
        } && resume_action == HabitMissedResumeAction::Carry),
        maintenance_candidate(
            occurrence,
            current,
            configuration,
            item_open,
            carried_before,
            pauses,
            target,
            now,
        ),
    ensures
        !(maintenance_step(
            occurrence,
            current,
            configuration,
            carried_before,
            pauses,
            target,
            now,
        ) is Keep),
{
}

/// Cancelling a decision and taking it up again comes back to the policy that the
/// decision followed.
pub proof fn cancelled_decision_is_taken_up_again(action: HabitMissedResolutionAction)
    requires
        !(action is Cancelled),
    ensures
        resume_of(action) is Some,
        policy_of_resume(resume_of(action)->0) == (match action {
            HabitMissedResolutionAction::DecisionRequired => HabitMissedPolicy::Ask,
            HabitMissedResolutionAction::Skip => HabitMissedPolicy::Skip,
            HabitMissedResolutionAction::Carry { .. } => HabitMissedPolicy::Carry,
            _ => HabitMissedPolicy::ReduceFrequency,
        }),
{
}

} // verus!
