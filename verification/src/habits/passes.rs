//! A whole pass over missed occurrences: first the decisions that no longer hold, then the
//! reductions that wait, and then the occurrences about which nothing was decided yet.
use std::collections::BTreeMap;

use vstd::prelude::*;

use crate::habits::missed::{maintenance_action, missed_action, MissedStep, ReductionTarget};
use crate::habits::model::{
    HabitMissedConfiguration, HabitMissedPolicy, HabitMissedResolution,
    HabitMissedResolutionAction, HabitOccurrence, HabitPause, HabitRepositoryError,
};
use crate::habits::reconcile::{configuration_of, ReconcileProgress};
use crate::time::{Instant, Uuid};

verus! {

/// How far a pass is.
#[derive(Clone, Copy, Debug, PartialEq, Eq, Structural)]
pub enum ReconcileStage {
    /// Decisions that no longer hold are changed.
    Maintenance,
    /// Reductions that wait are bound.
    Pending,
    /// The first decisions are taken.
    Fresh,
}

/// An occurrence that a pass looks at, with what is known of it. `derived` is the action
/// that the rules of its policy give, if they give one, and `reduction` is the reduction that
/// is possible at present.
#[derive(Debug)]
pub enum ReconcileRow {
    /// `carried_before` is the window that the occurrence was carried to before the carry was
    /// cancelled, `pauses` are the pauses of its habit, and `target` is the occurrence that
    /// its reduction leaves out.
    Maintenance {
        occurrence: HabitOccurrence,
        carried_before: Option<(Instant, Instant)>,
        pauses: Vec<HabitPause>,
        target: Option<ReductionTarget>,
        derived: Option<HabitMissedResolutionAction>,
        reduction: Result<HabitMissedResolutionAction, HabitRepositoryError>,
    },
    Pending {
        occurrence: HabitOccurrence,
        reduction: Result<HabitMissedResolutionAction, HabitRepositoryError>,
    },
    /// `stored_policy` is the policy that the item of the habit holds.
    Fresh {
        occurrence: HabitOccurrence,
        stored_policy: Option<HabitMissedPolicy>,
        derived: Option<HabitMissedResolutionAction>,
        reduction: Result<HabitMissedResolutionAction, HabitRepositoryError>,
        content_valid: bool,
    },
}

impl ReconcileRow {
    /// The occurrence that is looked at.
    pub open spec fn looks_at(self) -> HabitOccurrence {
        match self {
            ReconcileRow::Maintenance { occurrence, .. } => occurrence,
            ReconcileRow::Pending { occurrence, .. } => occurrence,
            ReconcileRow::Fresh { occurrence, .. } => occurrence,
        }
    }

    /// The stage at which it is looked at.
    pub open spec fn belongs_to(self) -> ReconcileStage {
        match self {
            ReconcileRow::Maintenance { .. } => ReconcileStage::Maintenance,
            ReconcileRow::Pending { .. } => ReconcileStage::Pending,
            ReconcileRow::Fresh { .. } => ReconcileStage::Fresh,
        }
    }
}

/// A pass and how far it is.
#[derive(Debug)]
pub struct ReconcilePass {
    pub progress: ReconcileProgress,
    pub stage: ReconcileStage,
}

/// What looking at an occurrence makes of a pass, or why the pass fails.
pub open spec fn row_decided(
    before: ReconcileProgress,
    policies: Map<Uuid, HabitMissedConfiguration>,
    row: ReconcileRow,
    now: Instant,
    after: ReconcileProgress,
    result: Result<(), HabitRepositoryError>,
) -> bool {
    let occurrence = row.looks_at();
    if !policies.contains_key(occurrence.evidence.habit_id) {
        result == Err::<(), HabitRepositoryError>(HabitRepositoryError::EvidenceConflict) && after
            == before
    } else {
        match row {
            ReconcileRow::Maintenance {
                carried_before,
                pauses,
                target,
                derived,
                reduction,
                ..
            } => maintained(
                before,
                occurrence,
                policies[occurrence.evidence.habit_id],
                carried_before,
                pauses@,
                target,
                derived,
                reduction,
                now,
                after,
                result,
            ),
            ReconcileRow::Pending { reduction, .. } => bound(
                before,
                occurrence,
                reduction,
                now,
                after,
                result,
            ),
            ReconcileRow::Fresh { stored_policy, derived, reduction, content_valid, .. } => opened(
                before,
                occurrence,
                policies[occurrence.evidence.habit_id].policy,
                stored_policy,
                crate::habits::missed::bound_action(derived, reduction),
                content_valid,
                now,
                after,
                result,
            ),
        }
    }
}

/// What changing a decision that no longer holds makes of a pass: what is to be done about it
/// follows from the occurrence as it is, and a decision that stands after all breaks the pass
/// off.
pub open spec fn maintained(
    before: ReconcileProgress,
    occurrence: HabitOccurrence,
    configuration: HabitMissedConfiguration,
    carried_before: Option<(Instant, Instant)>,
    pauses: Seq<HabitPause>,
    target: Option<ReductionTarget>,
    derived: Option<HabitMissedResolutionAction>,
    reduction: Result<HabitMissedResolutionAction, HabitRepositoryError>,
    now: Instant,
    after: ReconcileProgress,
    result: Result<(), HabitRepositoryError>,
) -> bool {
    match occurrence.missed_resolution {
        None => result == Err::<(), HabitRepositoryError>(HabitRepositoryError::Internal) && after
            == before,
        Some(current) => {
            let step = crate::habits::missed::maintenance_step(
                occurrence,
                current,
                configuration,
                carried_before,
                pauses,
                target,
                now,
            );
            match crate::habits::missed::action_of_step(step, derived, reduction) {
                Err(error) => result == Err::<(), HabitRepositoryError>(error) && after == before,
                Ok(None) => result == Err::<(), HabitRepositoryError>(
                    HabitRepositoryError::EvidenceConflict,
                ) && after == before,
                Ok(Some(next)) => if next is ReductionPending && reduction is Err && !(
                reduction->Err_0 is MissedReductionUnavailable) {
                    result == Err::<(), HabitRepositoryError>(reduction->Err_0) && after == before
                } else if current.revision >= i64::MAX {
                    result == Err::<(), HabitRepositoryError>(HabitRepositoryError::Internal)
                        && after == before
                } else {
                    result == Ok::<(), HabitRepositoryError>(()) && before.changed(
                        after,
                        crate::habits::missed::next_resolution(current, next, now),
                        next is ReductionPending && reduction is Ok,
                    )
                },
            }
        },
    }
}

/// What binding a reduction that waits makes of a pass.
pub open spec fn bound(
    before: ReconcileProgress,
    occurrence: HabitOccurrence,
    reduction: Result<HabitMissedResolutionAction, HabitRepositoryError>,
    now: Instant,
    after: ReconcileProgress,
    result: Result<(), HabitRepositoryError>,
) -> bool {
    match (occurrence.missed_resolution, reduction) {
        (None, _) => result == Err::<(), HabitRepositoryError>(HabitRepositoryError::Internal)
            && after == before,
        (Some(current), Ok(action)) => if current.revision >= i64::MAX {
            result == Err::<(), HabitRepositoryError>(HabitRepositoryError::Internal) && after
                == before
        } else {
            result == Ok::<(), HabitRepositoryError>(()) && before.changed(
                after,
                crate::habits::missed::next_resolution(current, action, now),
                false,
            )
        },
        (Some(_), Err(error)) => if error is MissedReductionUnavailable {
            result == Ok::<(), HabitRepositoryError>(()) && after == (ReconcileProgress {
                deferred_pending_work: true,
                ..before
            })
        } else {
            result == Err::<(), HabitRepositoryError>(error) && after == before
        },
    }
}

/// What taking the first decision about an occurrence makes of a pass.
pub open spec fn opened(
    before: ReconcileProgress,
    occurrence: HabitOccurrence,
    policy: HabitMissedPolicy,
    stored_policy: Option<HabitMissedPolicy>,
    action: Result<HabitMissedResolutionAction, HabitRepositoryError>,
    content_valid: bool,
    now: Instant,
    after: ReconcileProgress,
    result: Result<(), HabitRepositoryError>,
) -> bool {
    if stored_policy is None {
        result == Err::<(), HabitRepositoryError>(HabitRepositoryError::Internal) && after == before
    } else if stored_policy->0 != policy {
        result == Err::<(), HabitRepositoryError>(HabitRepositoryError::EvidenceConflict) && after
            == before
    } else if action is Err {
        result == Err::<(), HabitRepositoryError>(action->Err_0) && after == before
    } else if !content_valid || occurrence.missed_resolution is Some {
        result == Err::<(), HabitRepositoryError>(HabitRepositoryError::Internal) && after == before
    } else {
        &&& result == Ok::<(), HabitRepositoryError>(())
        &&& after.limit == before.limit
        &&& after.resolutions@ == before.resolutions@.push(
            crate::habits::missed::first_resolution(occurrence, policy, action->Ok_0, now),
        )
        &&& after.transitioned@ == before.transitioned@
        &&& after.deferred_pending_work == before.deferred_pending_work
        &&& after.overflow == before.overflow
    }
}

impl ReconcilePass {
    /// A pass that has not begun.
    pub fn new(limit: usize) -> (result: ReconcilePass)
        ensures
            result.stage == ReconcileStage::Maintenance,
            result.progress.wf(),
            result.progress.limit == limit,
            result.progress.resolutions@.len() == 0,
            result.progress.transitioned@.len() == 0,
            !result.progress.deferred_pending_work,
            !result.progress.overflow,
    {
        ReconcilePass {
            progress: ReconcileProgress::new(limit),
            stage: ReconcileStage::Maintenance,
        }
    }

    /// Goes on to the next stage; there is none after the last.
    pub fn go_on(&mut self)
        ensures
            final(self).progress == old(self).progress,
            final(self).stage == next_stage(old(self).stage),
    {
        self.stage = match self.stage {
            ReconcileStage::Maintenance => ReconcileStage::Pending,
            _ => ReconcileStage::Fresh,
        };
    }

    /// Looks at an occurrence of the present stage. `policies` are the habits that the pass is
    /// made for.
    pub fn decide(
        &mut self,
        policies: &BTreeMap<Uuid, HabitMissedConfiguration>,
        row: ReconcileRow,
        now: Instant,
    ) -> (result: Result<(), HabitRepositoryError>)
        requires
            old(self).progress.wf(),
            old(self).progress.room() > 0,
            row.belongs_to() == old(self).stage,
        ensures
            final(self).progress.wf(),
            final(self).stage == old(self).stage,
            row_decided(
                old(self).progress,
                policies@,
                row,
                now,
                final(self).progress,
                result,
            ),
    {
        match row {
            ReconcileRow::Maintenance {
                occurrence,
                carried_before,
                pauses,
                target,
                derived,
                reduction,
            } => {
                let configuration: HabitMissedConfiguration = configuration_of(
                    policies,
                    occurrence.evidence.habit_id,
                )?;
                let step: MissedStep = maintenance_action(
                    &occurrence,
                    &configuration,
                    carried_before,
                    &pauses,
                    target,
                    now,
                )?;
                self.progress.maintain(&occurrence, step, derived, reduction, now)
            },
            ReconcileRow::Pending { occurrence, reduction } => {
                configuration_of(policies, occurrence.evidence.habit_id)?;
                match self.progress.bind(&occurrence, reduction, now) {
                    Ok(_) => Ok(()),
                    Err(error) => Err(error),
                }
            },
            ReconcileRow::Fresh {
                occurrence,
                stored_policy,
                derived,
                reduction,
                content_valid,
            } => {
                let configuration: HabitMissedConfiguration = configuration_of(
                    policies,
                    occurrence.evidence.habit_id,
                )?;
                match self.progress.open_case(
                    &occurrence,
                    &configuration,
                    stored_policy,
                    missed_action(derived, reduction),
                    content_valid,
                    now,
                ) {
                    Ok(_) => Ok(()),
                    Err(error) => Err(error),
                }
            },
        }
    }
}

/// The stage after a stage.
pub open spec fn next_stage(stage: ReconcileStage) -> ReconcileStage {
    match stage {
        ReconcileStage::Maintenance => ReconcileStage::Pending,
        _ => ReconcileStage::Fresh,
    }
}

/// What a pass does next: it looks at an occurrence, reads so many rows, or goes on.
pub ghost enum PassStep {
    Decide(ReconcileRow),
    Read(nat),
    GoOn,
}

/// Whether the decision of an occurrence, if there is one, belongs to it.
pub open spec fn decision_belongs(occurrence: HabitOccurrence) -> bool {
    occurrence.missed_resolution matches Some(resolution) ==> resolution.occurrence_evidence_id
        == occurrence.evidence.id && resolution.habit_id == occurrence.evidence.habit_id
}

/// Whether a pass has decided about an occurrence.
pub open spec fn has_decided(progress: ReconcileProgress, evidence_id: Uuid) -> bool {
    exists|k: int|
        0 <= k < progress.resolutions@.len() && (
        #[trigger] progress.resolutions@[k]).occurrence_evidence_id == evidence_id
}

/// Whether a step leads from one state of a pass to another. An occurrence that was decided
/// about is not read again.
pub open spec fn step_leads(
    before: ReconcilePass,
    policies: Map<Uuid, HabitMissedConfiguration>,
    step: PassStep,
    now: Instant,
    after: ReconcilePass,
) -> bool {
    match step {
        PassStep::Decide(row) => {
            &&& row.belongs_to() == before.stage
            &&& before.progress.room() > 0
            &&& decision_belongs(row.looks_at())
            &&& !has_decided(before.progress, row.looks_at().evidence.id)
            &&& after.stage == before.stage
            &&& row_decided(before.progress, policies, row, now, after.progress, Ok(()))
        },
        PassStep::Read(rows) => {
            &&& after.stage == before.stage
            &&& after.progress == (ReconcileProgress {
                overflow: before.progress.overflow || rows > before.progress.room(),
                ..before.progress
            })
        },
        PassStep::GoOn => after.progress == before.progress && after.stage == next_stage(
            before.stage,
        ),
    }
}

/// Whether `states` are the states of a pass with these steps.
pub open spec fn pass_runs(
    limit: usize,
    policies: Map<Uuid, HabitMissedConfiguration>,
    steps: Seq<PassStep>,
    now: Instant,
    states: Seq<ReconcilePass>,
) -> bool {
    &&& states.len() == steps.len() + 1
    &&& states[0].stage == ReconcileStage::Maintenance
    &&& states[0].progress.limit == limit
    &&& states[0].progress.resolutions@.len() == 0
    &&& states[0].progress.transitioned@.len() == 0
    &&& forall|k: int|
        0 <= k < steps.len() ==> step_leads(
            states[k],
            policies,
            #[trigger] steps[k],
            now,
            states[k + 1],
        )
}

/// What holds of a pass at any time: it has decided no more than it may, about each occurrence
/// once, for habits that it is made for, and as of its time; and the decisions that were
/// changed come before those that are new, which there are none of before the last stage.
pub open spec fn pass_sound(
    pass: ReconcilePass,
    limit: usize,
    policies: Map<Uuid, HabitMissedConfiguration>,
    now: Instant,
) -> bool {
    let made = pass.progress.resolutions@;
    let changed = pass.progress.transitioned@;
    &&& pass.progress.limit == limit
    &&& made.len() <= limit
    &&& changed.len() <= made.len()
    &&& pass.stage != ReconcileStage::Fresh ==> changed.len() == made.len()
    &&& forall|i: int|
        0 <= i < made.len() ==> policies.contains_key((#[trigger] made[i]).habit_id)
            && made[i].updated_at == now
    &&& forall|i: int, j: int|
        0 <= i < j < made.len() ==> (#[trigger] made[i]).occurrence_evidence_id != (
        #[trigger] made[j]).occurrence_evidence_id
    &&& forall|i: int|
        0 <= i < changed.len() ==> (#[trigger] changed[i]) == made[i].occurrence_evidence_id
    &&& forall|i: int|
        changed.len() <= i < made.len() ==> (#[trigger] made[i]).revision == 1
            && made[i].created_at == now
}

/// Whether a decision follows on the one that an occurrence had when a step looked at it: it
/// has the next revision, and all else but its action and the time of the change is kept.
pub open spec fn follows_on(
    step: PassStep,
    made: HabitMissedResolution,
    now: Instant,
) -> bool {
    match step {
        PassStep::Decide(row) => match row.looks_at().missed_resolution {
            Some(current) => {
                &&& made.revision == current.revision + 1
                &&& made == crate::habits::missed::next_resolution(current, made.action, now)
            },
            None => false,
        },
        _ => false,
    }
}

/// Whether a decision is the first one about an occurrence that a step looked at.
pub open spec fn begins_with(
    step: PassStep,
    policies: Map<Uuid, HabitMissedConfiguration>,
    made: HabitMissedResolution,
    now: Instant,
) -> bool {
    match step {
        PassStep::Decide(row) => {
            &&& row.looks_at().missed_resolution is None
            &&& made == crate::habits::missed::first_resolution(
                row.looks_at(),
                policies[row.looks_at().evidence.habit_id].policy,
                made.action,
                now,
            )
        },
        _ => false,
    }
}

/// Whether one of the first `k` steps changed a decision to this one.
pub open spec fn changed_within(
    steps: Seq<PassStep>,
    k: int,
    made: HabitMissedResolution,
    now: Instant,
) -> bool {
    exists|j: int| 0 <= j < k && #[trigger] follows_on(steps[j], made, now)
}

/// Whether one of the first `k` steps took this decision.
pub open spec fn taken_within(
    steps: Seq<PassStep>,
    k: int,
    policies: Map<Uuid, HabitMissedConfiguration>,
    made: HabitMissedResolution,
    now: Instant,
) -> bool {
    exists|j: int| 0 <= j < k && #[trigger] begins_with(steps[j], policies, made, now)
}

/// Whether each decision of a pass comes from one of its first `k` steps.
pub open spec fn pass_accounts(
    pass: ReconcilePass,
    policies: Map<Uuid, HabitMissedConfiguration>,
    steps: Seq<PassStep>,
    k: int,
    now: Instant,
) -> bool {
    let made = pass.progress.resolutions@;
    let changed = pass.progress.transitioned@;
    &&& forall|i: int|
        0 <= i < changed.len() ==> changed_within(steps, k, #[trigger] made[i], now)
    &&& forall|i: int|
        changed.len() <= i < made.len() ==> taken_within(
            steps,
            k,
            policies,
            #[trigger] made[i],
            now,
        )
}

/// A pass decides about each occurrence at most once, only for habits that it is made for, and
/// about no more than it may: first it changes decisions, and then it takes new ones. A changed
/// decision has the next revision, and a new one the first.
pub proof fn pass_decides_once(
    limit: usize,
    policies: Map<Uuid, HabitMissedConfiguration>,
    steps: Seq<PassStep>,
    now: Instant,
    states: Seq<ReconcilePass>,
    k: int,
)
    requires
        pass_runs(limit, policies, steps, now, states),
        0 <= k <= steps.len(),
    ensures
        pass_sound(states[k], limit, policies, now),
        pass_accounts(states[k], policies, steps, k, now),
    decreases k,
{
    if k > 0 {
        pass_decides_once(limit, policies, steps, now, states, k - 1);
        let before = states[k - 1];
        let after = states[k];
        let step = steps[k - 1];
        assert(step_leads(before, policies, step, now, after));
        let made = before.progress.resolutions@;
        let changed = before.progress.transitioned@;
        let more = after.progress.resolutions@;
        let later = after.progress.transitioned@;
        if let PassStep::Decide(row) = step {
            if more.len() > made.len() {
                let added = more.last();
                let id = row.looks_at().evidence.id;
                assert(more =~= made.push(added));
                assert(added.occurrence_evidence_id == id);
                assert(added.habit_id == row.looks_at().evidence.habit_id);
                assert(later.len() > changed.len() ==> follows_on(steps[k - 1], added, now));
                assert(later.len() == changed.len() ==> begins_with(
                    steps[k - 1],
                    policies,
                    added,
                    now,
                ));
                assert forall|i: int, j: int| 0 <= i < j < more.len() implies (
                #[trigger] more[i]).occurrence_evidence_id != (
                #[trigger] more[j]).occurrence_evidence_id by {
                    if j == made.len() {
                        assert(made[i].occurrence_evidence_id != id);
                    } else {
                        assert(made[i] == more[i] && made[j] == more[j]);
                    }
                }
            }
        }
        assert forall|i: int| 0 <= i < later.len() implies changed_within(
            steps,
            k,
            #[trigger] more[i],
            now,
        ) by {
            if i < changed.len() {
                assert(made[i] == more[i]);
                let j = choose|j: int|
                    0 <= j < k - 1 && #[trigger] follows_on(steps[j], made[i], now);
                assert(follows_on(steps[j], more[i], now));
            } else {
                assert(follows_on(steps[k - 1], more[i], now));
            }
        }
        assert forall|i: int| later.len() <= i < more.len() implies taken_within(
            steps,
            k,
            policies,
            #[trigger] more[i],
            now,
        ) by {
            if i < made.len() {
                assert(made[i] == more[i]);
                let j = choose|j: int|
                    0 <= j < k - 1 && #[trigger] begins_with(steps[j], policies, made[i], now);
                assert(begins_with(steps[j], policies, more[i], now));
            } else {
                assert(begins_with(steps[k - 1], policies, more[i], now));
            }
        }
    }
}

} // verus!
