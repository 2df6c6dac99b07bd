//! Habits as the database stores them.
use vstd::prelude::*;

use crate::habits::model::{
    from_i64, to_i64, HabitMissedPolicy, HabitMissedResolution, HabitMissedResolutionAction,
    HabitOccurrence, HabitOccurrenceEvidence, HabitOutcome, HabitOutcomeStatus, HabitPause,
    HabitRepositoryError,
};
use crate::habits::names::{
    outcome_status_name, parse_missed_action, parse_missed_policy, parse_outcome_status,
};
use crate::habits::receipts::{validate_occurrence, validate_resolution};
use crate::hashing::prefixed_hex;
use crate::json::Json;
use crate::time::{CalendarDate, Instant, Uuid};

verus! {

/// The columns of evidence.
#[derive(Debug)]
pub struct EvidenceRow {
    pub id: Uuid,
    pub habit_id: Uuid,
    pub planner_occurrence_id: Uuid,
    pub source_schedule_revision_id: Uuid,
    pub source_item_revision: i64,
    pub policy_fingerprint: Vec<u8>,
    pub recurrence_identity: Json,
    pub nominal_start: Instant,
    pub nominal_end: Instant,
    pub window_start: Instant,
    pub window_end: Instant,
    pub local_date: CalendarDate,
    pub timezone_name: String,
    pub expected_duration_seconds: Option<i64>,
    pub expected_quantity: Option<i64>,
    pub expected_unit: Option<String>,
}

/// The columns of a report.
#[derive(Debug)]
pub struct OutcomeRow {
    pub revision: i64,
    pub status: String,
    pub progress_basis_points: i32,
    pub quantity: Option<i64>,
    pub unit: Option<String>,
    pub actual_seconds: Option<i64>,
    pub note: Option<String>,
    pub occurred_at: Instant,
    pub updated_at: Instant,
}

/// The columns of a decision about a missed occurrence.
#[derive(Debug)]
pub struct ResolutionRow {
    pub revision: i64,
    pub source_planner_occurrence_id: Uuid,
    pub configured_policy: String,
    pub action: String,
    pub cancellation_reason: Option<String>,
    pub cancelled_resume_action: Option<String>,
    pub carry_window_start: Option<Instant>,
    pub carry_window_end: Option<Instant>,
    pub suppressed_planner_occurrence_ids: Vec<Uuid>,
    pub created_at: Instant,
    pub updated_at: Instant,
}

/// The columns of a pause.
#[derive(Clone, Copy, Debug)]
pub struct StoredPause {
    pub id: Uuid,
    pub habit_id: Uuid,
    pub revision: i64,
    pub started_at: Instant,
    pub ended_at: Option<Instant>,
    pub preserves_streak: bool,
    pub created_at: Instant,
    pub updated_at: Instant,
}

/// Whether an optional number is read from an optional column.
pub open spec fn reads_unsigned(read: Option<u64>, column: Option<i64>) -> bool {
    match (read, column) {
        (Some(value), Some(stored)) => value == stored,
        (None, None) => true,
        _ => false,
    }
}

/// Whether evidence is read from its columns.
pub open spec fn evidence_reads(evidence: HabitOccurrenceEvidence, row: EvidenceRow) -> bool {
    &&& evidence.id == row.id
    &&& evidence.habit_id == row.habit_id
    &&& evidence.planner_occurrence_id == row.planner_occurrence_id
    &&& evidence.source_schedule_revision_id == row.source_schedule_revision_id
    &&& evidence.source_item_revision == row.source_item_revision
    &&& evidence.policy_fingerprint@ == crate::hashing::prefixed_text(row.policy_fingerprint@)
    &&& evidence.identity == row.recurrence_identity
    &&& evidence.nominal_start == row.nominal_start
    &&& evidence.nominal_end == row.nominal_end
    &&& evidence.window_start == row.window_start
    &&& evidence.window_end == row.window_end
    &&& evidence.local_date == row.local_date
    &&& evidence.timezone_name == row.timezone_name
    &&& reads_unsigned(evidence.expected_duration_seconds, row.expected_duration_seconds)
    &&& evidence.expected_quantity == row.expected_quantity
    &&& evidence.expected_unit == row.expected_unit
}

/// Whether the columns hold evidence: a fingerprint is a digest, and no number is
/// negative that cannot be.
pub open spec fn evidence_well_formed(row: EvidenceRow) -> bool {
    &&& row.policy_fingerprint@.len() == 32
    &&& row.source_item_revision >= 0
    &&& row.expected_duration_seconds is Some ==> row.expected_duration_seconds->0 >= 0
}

/// Reads evidence. `content_valid` says whether it satisfies the rules for evidence.
pub fn evidence_from_row(row: EvidenceRow, content_valid: bool) -> (result: Result<
    HabitOccurrenceEvidence,
    HabitRepositoryError,
>)
    ensures
        match result {
            Ok(evidence) => content_valid && evidence_well_formed(row) && evidence_reads(
                evidence,
                row,
            ),
            Err(error) => error == HabitRepositoryError::Internal && !(content_valid
                && evidence_well_formed(row)),
        },
{
    if row.policy_fingerprint.len() != 32 {
        return Err(HabitRepositoryError::Internal);
    }
    let source_item_revision: u64 = from_i64(row.source_item_revision)?;
    let expected_duration_seconds: Option<u64> = match row.expected_duration_seconds {
        Some(seconds) => Some(from_i64(seconds)?),
        None => None,
    };
    if !content_valid {
        return Err(HabitRepositoryError::Internal);
    }
    let policy_fingerprint: String = prefixed_hex(&row.policy_fingerprint);
    Ok(
        HabitOccurrenceEvidence {
            id: row.id,
            habit_id: row.habit_id,
            planner_occurrence_id: row.planner_occurrence_id,
            source_schedule_revision_id: row.source_schedule_revision_id,
            source_item_revision,
            policy_fingerprint,
            identity: row.recurrence_identity,
            nominal_start: row.nominal_start,
            nominal_end: row.nominal_end,
            window_start: row.window_start,
            window_end: row.window_end,
            local_date: row.local_date,
            timezone_name: row.timezone_name,
            expected_duration_seconds,
            expected_quantity: row.expected_quantity,
            expected_unit: row.expected_unit,
        },
    )
}

/// Whether a report is read from its columns.
pub open spec fn outcome_reads(outcome: HabitOutcome, row: OutcomeRow) -> bool {
    &&& outcome.revision == row.revision
    &&& row.status@ == crate::habits::names::outcome_status_name_text(outcome.status)
    &&& outcome.progress_basis_points == row.progress_basis_points
    &&& outcome.quantity == row.quantity
    &&& outcome.unit == row.unit
    &&& reads_unsigned(outcome.actual_seconds, row.actual_seconds)
    &&& outcome.note == row.note
    &&& outcome.occurred_at == row.occurred_at
    &&& outcome.updated_at == row.updated_at
}

/// Whether the columns hold a report.
pub open spec fn outcome_well_formed(row: OutcomeRow) -> bool {
    &&& row.revision >= 0
    &&& exists|status: HabitOutcomeStatus|
        row.status@ == #[trigger] crate::habits::names::outcome_status_name_text(status)
    &&& 0 <= row.progress_basis_points <= u16::MAX
    &&& row.actual_seconds is Some ==> row.actual_seconds->0 >= 0
}

/// Reads a report.
pub fn outcome_from_row(row: OutcomeRow) -> (result: Result<HabitOutcome, HabitRepositoryError>)
    ensures
        match result {
            Ok(outcome) => outcome_well_formed(row) && outcome_reads(outcome, row),
            Err(error) => error == HabitRepositoryError::Internal && !outcome_well_formed(row),
        },
{
    let revision: u64 = from_i64(row.revision)?;
    let status: HabitOutcomeStatus = parse_outcome_status(row.status.as_str())?;
    if row.progress_basis_points < 0 || row.progress_basis_points > u16::MAX as i32 {
        return Err(HabitRepositoryError::Internal);
    }
    let actual_seconds: Option<u64> = match row.actual_seconds {
        Some(seconds) => Some(from_i64(seconds)?),
        None => None,
    };
    Ok(
        HabitOutcome {
            revision,
            status,
            progress_basis_points: row.progress_basis_points as u16,
            quantity: row.quantity,
            unit: row.unit,
            actual_seconds,
            note: row.note,
            occurred_at: row.occurred_at,
            updated_at: row.updated_at,
        },
    )
}

/// The columns of a report. A number that the database cannot hold is an error.
pub fn outcome_row(outcome: HabitOutcome) -> (result: Result<OutcomeRow, HabitRepositoryError>)
    ensures
        match result {
            Ok(row) => outcome_reads(outcome, row),
            Err(error) => error == HabitRepositoryError::Internal && (outcome.revision > i64::MAX
                || (outcome.actual_seconds is Some && outcome.actual_seconds->0 > i64::MAX)),
        },
{
    let revision: i64 = to_i64(outcome.revision)?;
    let actual_seconds: Option<i64> = match outcome.actual_seconds {
        Some(seconds) => Some(to_i64(seconds)?),
        None => None,
    };
    Ok(
        OutcomeRow {
            revision,
            status: outcome_status_name(outcome.status).to_owned(),
            progress_basis_points: outcome.progress_basis_points as i32,
            quantity: outcome.quantity,
            unit: outcome.unit,
            actual_seconds,
            note: outcome.note,
            occurred_at: outcome.occurred_at,
            updated_at: outcome.updated_at,
        },
    )
}

/// What is read of a report that was stored is the report: its columns hold a report, and
/// no other one.
pub proof fn stored_outcome_reads_back(stored: HabitOutcome, row: OutcomeRow, read: HabitOutcome)
    requires
        outcome_reads(stored, row),
    ensures
        outcome_well_formed(row),
        outcome_reads(read, row) <==> read == stored,
{
    crate::habits::names::outcome_status_name_text_is_injective(stored.status, read.status);
}

/// Whether the columns of a decision hold an action.
pub open spec fn row_holds_action(row: ResolutionRow, action: HabitMissedResolutionAction) -> bool {
    &&& crate::habits::names::action_storable(action)
    &&& crate::habits::names::columns_hold(
        row.action@,
        crate::text::optional_text(row.cancellation_reason),
        crate::text::optional_text(row.cancelled_resume_action),
        row.carry_window_start,
        row.carry_window_end,
        row.suppressed_planner_occurrence_ids@,
        action,
    )
}

/// Whether a decision is read from its columns.
pub open spec fn resolution_reads(
    resolution: HabitMissedResolution,
    evidence_id: Uuid,
    habit_id: Uuid,
    row: ResolutionRow,
) -> bool {
    &&& resolution.occurrence_evidence_id == evidence_id
    &&& resolution.habit_id == habit_id
    &&& resolution.source_planner_occurrence_id == row.source_planner_occurrence_id
    &&& resolution.revision == row.revision
    &&& row.configured_policy@ == crate::habits::names::missed_policy_name_text(
        resolution.configured_policy,
    )
    &&& row_holds_action(row, resolution.action)
    &&& resolution.created_at == row.created_at
    &&& resolution.updated_at == row.updated_at
}

/// Whether the columns hold a decision.
pub open spec fn resolution_well_formed(row: ResolutionRow) -> bool {
    &&& row.revision >= 0
    &&& exists|policy: HabitMissedPolicy|
        row.configured_policy@ == #[trigger] crate::habits::names::missed_policy_name_text(policy)
    &&& exists|action: HabitMissedResolutionAction| #[trigger] row_holds_action(row, action)
}

/// The characters of an optional text.
fn borrowed(value: &Option<String>) -> (result: Option<&str>)
    ensures
        crate::habits::names::view_text(result) == crate::text::optional_text(*value),
{
    match value {
        Some(text) => Some(text.as_str()),
        None => None,
    }
}

/// Reads a decision about a missed occurrence. `content_valid` says whether it satisfies
/// the rules for decisions.
pub fn missed_resolution_from_row(
    evidence_id: Uuid,
    habit_id: Uuid,
    row: ResolutionRow,
    content_valid: bool,
) -> (result: Result<HabitMissedResolution, HabitRepositoryError>)
    ensures
        match result {
            Ok(resolution) => content_valid && resolution_reads(
                resolution,
                evidence_id,
                habit_id,
                row,
            ),
            Err(error) => error == HabitRepositoryError::Internal && !(content_valid
                && resolution_well_formed(row)),
        },
{
    let revision: u64 = from_i64(row.revision)?;
    let configured_policy: HabitMissedPolicy = parse_missed_policy(
        row.configured_policy.as_str(),
    )?;
    let suppressed: Vec<Uuid> = row.suppressed_planner_occurrence_ids;
    let action: HabitMissedResolutionAction = match parse_missed_action(
        row.action.as_str(),
        borrowed(&row.cancellation_reason),
        borrowed(&row.cancelled_resume_action),
        row.carry_window_start,
        row.carry_window_end,
        suppressed,
    ) {
        Ok(action) => action,
        Err(error) => {
            assert(forall|action: HabitMissedResolutionAction| !row_holds_action(row, action));
            return Err(error);
        },
    };
    validate_resolution(content_valid)?;
    Ok(
        HabitMissedResolution {
            occurrence_evidence_id: evidence_id,
            habit_id,
            source_planner_occurrence_id: row.source_planner_occurrence_id,
            revision,
            configured_policy,
            action,
            created_at: row.created_at,
            updated_at: row.updated_at,
        },
    )
}

/// Whether an occurrence is read from its columns.
pub open spec fn occurrence_reads(
    occurrence: HabitOccurrence,
    evidence: EvidenceRow,
    outcome: Option<OutcomeRow>,
    resolution: Option<ResolutionRow>,
) -> bool {
    &&& evidence_reads(occurrence.evidence, evidence)
    &&& match (occurrence.outcome, outcome) {
        (Some(read), Some(row)) => outcome_reads(read, row),
        (None, None) => true,
        _ => false,
    }
    &&& match (occurrence.missed_resolution, resolution) {
        (Some(read), Some(row)) => resolution_reads(read, evidence.id, evidence.habit_id, row),
        (None, None) => true,
        _ => false,
    }
}

/// Whether the columns hold an occurrence whose parts agree.
pub open spec fn occurrence_well_formed(
    evidence: EvidenceRow,
    outcome: Option<OutcomeRow>,
    resolution: Option<ResolutionRow>,
) -> bool {
    exists|occurrence: HabitOccurrence| #[trigger]
        occurrence_reads(occurrence, evidence, outcome, resolution)
            && crate::habits::receipts::parts_agree(occurrence)
}

/// Reads an occurrence with what is known of it. `content_valid` says whether evidence
/// and decision satisfy the rules for them.
pub fn occurrence_from_row(
    evidence: EvidenceRow,
    outcome: Option<OutcomeRow>,
    resolution: Option<ResolutionRow>,
    content_valid: bool,
) -> (result: Result<HabitOccurrence, HabitRepositoryError>)
    ensures
        match result {
            Ok(occurrence) => content_valid && crate::habits::receipts::parts_agree(occurrence)
                && evidence_well_formed(evidence) && occurrence_reads(
                occurrence,
                evidence,
                outcome,
                resolution,
            ),
            Err(error) => error == HabitRepositoryError::Internal && !(content_valid
                && evidence_well_formed(evidence) && occurrence_well_formed(
                evidence,
                outcome,
                resolution,
            )),
        },
{
    let id: Uuid = evidence.id;
    let habit_id: Uuid = evidence.habit_id;
    let read_evidence: HabitOccurrenceEvidence = evidence_from_row(evidence, content_valid)?;
    let read_outcome: Option<HabitOutcome> = match outcome {
        Some(row) => match outcome_from_row(row) {
            Ok(read) => Some(read),
            Err(error) => {
                assert forall|occurrence: HabitOccurrence| #[trigger]
                    occurrence_reads(occurrence, evidence, outcome, resolution) implies false by {
                    let read = occurrence.outcome->0;
                    assert(row.status@ == crate::habits::names::outcome_status_name_text(
                        read.status,
                    ));
                }
                return Err(error);
            },
        },
        None => None,
    };
    let read_resolution: Option<HabitMissedResolution> = match resolution {
        Some(row) => match missed_resolution_from_row(id, habit_id, row, content_valid) {
            Ok(read) => Some(read),
            Err(error) => {
                assert forall|occurrence: HabitOccurrence| #[trigger]
                    occurrence_reads(occurrence, evidence, outcome, resolution) implies false by {
                    let read = occurrence.missed_resolution->0;
                    assert(row.configured_policy@ == crate::habits::names::missed_policy_name_text(
                        read.configured_policy,
                    ));
                    assert(row_holds_action(row, read.action));
                }
                return Err(error);
            },
        },
        None => None,
    };
    let occurrence: HabitOccurrence = HabitOccurrence {
        evidence: read_evidence,
        outcome: read_outcome,
        missed_resolution: read_resolution,
    };
    match validate_occurrence(&occurrence, content_valid) {
        Ok(_) => {},
        Err(error) => {
            proof {
                assert forall|other: HabitOccurrence| #[trigger]
                    occurrence_reads(other, evidence, outcome, resolution) implies
                    crate::habits::receipts::parts_agree(other)
                    == crate::habits::receipts::parts_agree(occurrence) by {
                    lemma_same_rows_agree_alike(other, occurrence, evidence, outcome, resolution);
                }
            }
            return Err(error);
        },
    }
    Ok(occurrence)
}

/// Two readings of the same columns agree in their parts alike.
proof fn lemma_same_rows_agree_alike(
    a: HabitOccurrence,
    b: HabitOccurrence,
    evidence: EvidenceRow,
    outcome: Option<OutcomeRow>,
    resolution: Option<ResolutionRow>,
)
    requires
        occurrence_reads(a, evidence, outcome, resolution),
        occurrence_reads(b, evidence, outcome, resolution),
    ensures
        crate::habits::receipts::parts_agree(a) == crate::habits::receipts::parts_agree(b),
{
    if resolution is Some {
        let row = resolution->0;
        crate::habits::names::stored_action_reads_back(
            row.action@,
            crate::text::optional_text(row.cancellation_reason),
            crate::text::optional_text(row.cancelled_resume_action),
            row.carry_window_start,
            row.carry_window_end,
            row.suppressed_planner_occurrence_ids@,
            a.missed_resolution->0.action,
            b.missed_resolution->0.action,
        );
    }
}

/// The columns of a pause. A revision that the database cannot hold is an error.
pub fn stored_pause(pause: &HabitPause) -> (result: Result<StoredPause, HabitRepositoryError>)
    ensures
        match result {
            Ok(row) => pause_reads(*pause, row),
            Err(error) => pause.revision > i64::MAX && error == HabitRepositoryError::Internal,
        },
{
    let revision: i64 = to_i64(pause.revision)?;
    Ok(
        StoredPause {
            id: pause.id,
            habit_id: pause.habit_id,
            revision,
            started_at: pause.started_at,
            ended_at: pause.ended_at,
            preserves_streak: pause.preserves_streak,
            created_at: pause.created_at,
            updated_at: pause.updated_at,
        },
    )
}

/// Whether a pause is read from its columns.
pub open spec fn pause_reads(pause: HabitPause, row: StoredPause) -> bool {
    &&& pause.id == row.id
    &&& pause.habit_id == row.habit_id
    &&& pause.revision == row.revision
    &&& pause.started_at == row.started_at
    &&& pause.ended_at == row.ended_at
    &&& pause.preserves_streak == row.preserves_streak
    &&& pause.created_at == row.created_at
    &&& pause.updated_at == row.updated_at
}

/// What is read of a pause that was stored is the pause.
pub proof fn stored_pause_reads_back(stored: HabitPause, row: StoredPause, read: HabitPause)
    requires
        pause_reads(stored, row),
        pause_reads(read, row),
    ensures
        read == stored,
{
}

/// Reads a pause.
pub fn pause_from_row(row: StoredPause) -> (result: Result<HabitPause, HabitRepositoryError>)
    ensures
        match result {
            Ok(pause) => pause_reads(pause, row),
            Err(error) => row.revision < 0 && error == HabitRepositoryError::Internal,
        },
{
    let revision: u64 = from_i64(row.revision)?;
    Ok(
        HabitPause {
            id: row.id,
            habit_id: row.habit_id,
            revision,
            started_at: row.started_at,
            ended_at: row.ended_at,
            preserves_streak: row.preserves_streak,
            created_at: row.created_at,
            updated_at: row.updated_at,
        },
    )
}

} // verus!
