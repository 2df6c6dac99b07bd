//! That what is stored of habits is read as what it was stored as.
use vstd::prelude::*;

use crate::habits::model::{
    HabitMissedResolution, HabitMissedResolutionAction, HabitOccurrence, HabitOccurrenceEvidence,
    HabitOutcome, HabitPause,
};
use crate::habits::reconcile::{with_resolution, write_tells, ResolutionWrite};
use crate::habits::rows::{
    evidence_reads, evidence_well_formed, occurrence_reads, outcome_reads, pause_reads,
    resolution_reads, EvidenceRow, OutcomeRow, ResolutionRow, StoredPause,
};
use crate::time::Uuid;

verus! {

/// Each column of a pause holds the part of the pause that it is called.
pub proof fn columns_of_a_pause_hold_its_parts(pause: HabitPause, row: StoredPause)
    requires
        pause_reads(pause, row),
    ensures
        row.id == pause.id,
        row.habit_id == pause.habit_id,
        row.revision == pause.revision,
        row.started_at == pause.started_at,
        row.ended_at == pause.ended_at,
        row.preserves_streak == pause.preserves_streak,
        row.created_at == pause.created_at,
        row.updated_at == pause.updated_at,
{
}

/// Each column of a report holds the part of the report that it is called.
pub proof fn columns_of_a_report_hold_its_parts(outcome: HabitOutcome, row: OutcomeRow)
    requires
        outcome_reads(outcome, row),
    ensures
        row.revision == outcome.revision,
        row.status@ == crate::habits::names::outcome_status_name_text(outcome.status),
        row.progress_basis_points == outcome.progress_basis_points,
        row.quantity == outcome.quantity,
        row.unit == outcome.unit,
        row.actual_seconds is Some == outcome.actual_seconds is Some,
        outcome.actual_seconds is Some ==> row.actual_seconds->0 == outcome.actual_seconds->0,
        row.note == outcome.note,
        row.occurred_at == outcome.occurred_at,
        row.updated_at == outcome.updated_at,
{
}

/// Each column of evidence holds the part of the evidence that it is called, and columns are
/// those of evidence exactly if the fingerprint is a digest and no number is negative.
pub proof fn columns_of_evidence_hold_its_parts(
    evidence: HabitOccurrenceEvidence,
    row: EvidenceRow,
)
    ensures
        evidence_reads(evidence, row) ==> {
            &&& row.id == evidence.id
            &&& row.habit_id == evidence.habit_id
            &&& row.planner_occurrence_id == evidence.planner_occurrence_id
            &&& row.source_schedule_revision_id == evidence.source_schedule_revision_id
            &&& row.source_item_revision == evidence.source_item_revision
            &&& evidence.policy_fingerprint@ == crate::hashing::prefixed_text(
                row.policy_fingerprint@,
            )
            &&& row.recurrence_identity == evidence.identity
            &&& row.nominal_start == evidence.nominal_start
            &&& row.nominal_end == evidence.nominal_end
            &&& row.window_start == evidence.window_start
            &&& row.window_end == evidence.window_end
            &&& row.local_date == evidence.local_date
            &&& row.timezone_name == evidence.timezone_name
            &&& row.expected_duration_seconds is Some == evidence.expected_duration_seconds is Some
            &&& evidence.expected_duration_seconds is Some ==> row.expected_duration_seconds->0
                == evidence.expected_duration_seconds->0
            &&& row.expected_quantity == evidence.expected_quantity
            &&& row.expected_unit == evidence.expected_unit
        },
        evidence_well_formed(row) <==> row.policy_fingerprint@.len() == 32
            && row.source_item_revision >= 0 && (row.expected_duration_seconds is None
            || row.expected_duration_seconds->0 >= 0),
{
}

/// Each column of a decision holds the part of the decision that it is called: a carried
/// occurrence has its window, a reduction what it leaves out, a cancellation its reason and
/// what is taken up again, and nothing else is kept for an action.
pub proof fn columns_of_a_decision_hold_its_parts(
    resolution: HabitMissedResolution,
    evidence_id: Uuid,
    habit_id: Uuid,
    row: ResolutionRow,
)
    requires
        resolution_reads(resolution, evidence_id, habit_id, row),
    ensures
        resolution.occurrence_evidence_id == evidence_id,
        resolution.habit_id == habit_id,
        row.source_planner_occurrence_id == resolution.source_planner_occurrence_id,
        row.revision == resolution.revision,
        row.configured_policy@ == crate::habits::names::missed_policy_name_text(
            resolution.configured_policy,
        ),
        row.created_at == resolution.created_at,
        row.updated_at == resolution.updated_at,
        match resolution.action {
            HabitMissedResolutionAction::Carry { window_start, window_end } => {
                row.carry_window_start == Some(window_start) && row.carry_window_end == Some(
                    window_end,
                )
            },
            HabitMissedResolutionAction::ReduceFrequency { suppressed_planner_occurrence_ids } => {
                row.suppressed_planner_occurrence_ids@ == suppressed_planner_occurrence_ids@
            },
            HabitMissedResolutionAction::Cancelled { .. } => row.cancellation_reason is Some
                && row.cancelled_resume_action is Some,
            _ => true,
        },
        !(resolution.action is Carry) ==> row.carry_window_start is None && row.carry_window_end
            is None,
        !(resolution.action is ReduceFrequency) ==> row.suppressed_planner_occurrence_ids@.len()
            == 0,
        !(resolution.action is Cancelled) ==> row.cancellation_reason is None
            && row.cancelled_resume_action is None,
{
}

/// An occurrence is read with the report and the decision that are stored for it, and without
/// one where none is.
pub proof fn occurrences_are_read_with_what_is_known(
    occurrence: HabitOccurrence,
    evidence: EvidenceRow,
    outcome: Option<OutcomeRow>,
    resolution: Option<ResolutionRow>,
)
    requires
        occurrence_reads(occurrence, evidence, outcome, resolution),
    ensures
        occurrence.evidence.id == evidence.id,
        occurrence.evidence.window_start == evidence.window_start,
        occurrence.evidence.window_end == evidence.window_end,
        occurrence.outcome is Some == outcome is Some,
        outcome is Some ==> outcome_reads(occurrence.outcome->0, outcome->0),
        occurrence.missed_resolution is Some == resolution is Some,
        resolution is Some ==> occurrence.missed_resolution->0.occurrence_evidence_id
            == evidence.id && occurrence.missed_resolution->0.habit_id == evidence.habit_id
            && occurrence.missed_resolution->0.revision == resolution->0.revision,
{
}

/// What is written for a decision tells of the operation, of the revision that was there and
/// the one that is, and of whether a person chose it; and the occurrence that subscribers are
/// told of has the decision and is otherwise as it was.
pub proof fn decisions_are_written_as_taken(
    write: ResolutionWrite,
    operation_id: Uuid,
    previous_revision: u64,
    resolution: HabitMissedResolution,
    explicit_selection: bool,
    occurrence: HabitOccurrence,
)
    ensures
        write_tells(write, operation_id, previous_revision, resolution, explicit_selection) ==> {
            &&& write.operation_id == operation_id
            &&& write.previous_revision == previous_revision
            &&& write.revision == resolution.revision
            &&& write.explicit_selection == explicit_selection
            &&& write.audit.entity_id == resolution.occurrence_evidence_id
            &&& write.audit.result_revision == resolution.revision
            &&& write.audit.base_revision is Some == (previous_revision > 0)
            &&& previous_revision > 0 ==> write.audit.base_revision->0 == previous_revision
            &&& resolution.action is Carry ==> write.columns.carry_start == Some(
                resolution.action->Carry_window_start,
            ) && write.columns.carry_end == Some(resolution.action->Carry_window_end)
            &&& resolution.action is ReduceFrequency ==> write.columns.suppressed@
                == resolution.action->suppressed_planner_occurrence_ids@
        },
        with_resolution(occurrence, resolution).missed_resolution == Some(resolution),
        with_resolution(occurrence, resolution).evidence == occurrence.evidence,
        with_resolution(occurrence, resolution).outcome == occurrence.outcome,
{
}

} // verus!
