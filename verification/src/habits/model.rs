//! The data of habits.
use std::collections::BTreeMap;

use vstd::prelude::*;

use crate::json::Json;
use crate::time::{CalendarDate, Instant, Uuid};

verus! {

/// How an occurrence of a habit turned out.
#[derive(Clone, Copy, Debug, PartialEq, Eq, Structural)]
pub enum HabitOutcomeStatus {
    Unresolved,
    Partial,
    Completed,
    Skipped,
}

/// What a habit asks for when an occurrence is missed.
#[derive(Clone, Copy, Debug, PartialEq, Eq, Structural)]
pub enum HabitMissedPolicy {
    Skip,
    Carry,
    ReduceFrequency,
    Ask,
}

/// Why what was decided for a missed occurrence no longer applies.
#[derive(Clone, Copy, Debug, PartialEq, Eq, Structural)]
pub enum HabitMissedCancellationReason {
    SourceCompleted,
    SourceSkipped,
    SourcePaused,
    SourceObsolete,
}

/// What is taken up again once a cancelled decision applies again.
#[derive(Clone, Copy, Debug, PartialEq, Eq, Structural)]
pub enum HabitMissedResumeAction {
    DecisionRequired,
    Skip,
    Carry,
    ReduceFrequency,
}

/// What a person chooses for a missed occurrence.
#[derive(Clone, Copy, Debug, PartialEq, Eq, Structural)]
pub enum HabitMissedExplicitAction {
    Skip,
    Carry,
    ReduceFrequency,
}

/// How a published schedule treats an occurrence.
#[derive(Clone, Copy, Debug, PartialEq, Eq, Structural)]
pub enum OccurrenceState {
    Generated,
    Completed,
    Paused,
    Skipped,
}

/// What is done about a missed occurrence.
#[derive(Clone, Debug)]
pub enum HabitMissedResolutionAction {
    /// A person has to choose.
    DecisionRequired,
    /// A later occurrence is to be left out, and none is available yet.
    ReductionPending,
    /// The decision no longer applies.
    Cancelled {
        reason: HabitMissedCancellationReason,
        resume_action: HabitMissedResumeAction,
    },
    /// The occurrence is left out.
    Skip,
    /// The occurrence moves to another window.
    Carry { window_start: Instant, window_end: Instant },
    /// Later occurrences are left out instead.
    ReduceFrequency { suppressed_planner_occurrence_ids: Vec<Uuid> },
}

/// The decision about one missed occurrence.
#[derive(Clone, Debug)]
pub struct HabitMissedResolution {
    pub occurrence_evidence_id: Uuid,
    pub habit_id: Uuid,
    pub source_planner_occurrence_id: Uuid,
    pub revision: u64,
    pub configured_policy: HabitMissedPolicy,
    pub action: HabitMissedResolutionAction,
    pub created_at: Instant,
    pub updated_at: Instant,
}

/// How an occurrence turned out, as a person reports it.
#[derive(Clone, Debug)]
pub struct HabitOutcomeInput {
    pub status: HabitOutcomeStatus,
    pub progress_basis_points: u16,
    pub quantity: Option<i64>,
    pub unit: Option<String>,
    pub actual_seconds: Option<u64>,
    pub note: Option<String>,
    pub occurred_at: Instant,
}

/// How an occurrence turned out.
#[derive(Clone, Debug)]
pub struct HabitOutcome {
    pub revision: u64,
    pub status: HabitOutcomeStatus,
    pub progress_basis_points: u16,
    pub quantity: Option<i64>,
    pub unit: Option<String>,
    pub actual_seconds: Option<u64>,
    pub note: Option<String>,
    pub occurred_at: Instant,
    pub updated_at: Instant,
}

impl HabitOutcome {
    /// The stored form of a report.
    pub open spec fn of_input(
        input: HabitOutcomeInput,
        revision: u64,
        recorded_at: Instant,
    ) -> HabitOutcome {
        HabitOutcome {
            revision,
            status: input.status,
            progress_basis_points: input.progress_basis_points,
            quantity: input.quantity,
            unit: input.unit,
            actual_seconds: input.actual_seconds,
            note: input.note,
            occurred_at: input.occurred_at,
            updated_at: recorded_at,
        }
    }

    /// The stored form of a report.
    pub fn from_input(input: HabitOutcomeInput, revision: u64, recorded_at: Instant) -> (result:
        HabitOutcome)
        ensures
            result == HabitOutcome::of_input(input, revision, recorded_at),
    {
        HabitOutcome {
            revision,
            status: input.status,
            progress_basis_points: input.progress_basis_points,
            quantity: input.quantity,
            unit: input.unit,
            actual_seconds: input.actual_seconds,
            note: input.note,
            occurred_at: input.occurred_at,
            updated_at: recorded_at,
        }
    }
}

/// That an occurrence was part of a published schedule, and as what.
#[derive(Clone, Debug)]
pub struct HabitOccurrenceEvidence {
    pub id: Uuid,
    pub habit_id: Uuid,
    pub planner_occurrence_id: Uuid,
    pub source_schedule_revision_id: Uuid,
    pub source_item_revision: u64,
    pub policy_fingerprint: String,
    pub identity: Json,
    pub nominal_start: Instant,
    pub nominal_end: Instant,
    pub window_start: Instant,
    pub window_end: Instant,
    pub local_date: CalendarDate,
    pub timezone_name: String,
    pub expected_duration_seconds: Option<u64>,
    pub expected_quantity: Option<i64>,
    pub expected_unit: Option<String>,
}

/// An occurrence of a habit with what is known of it.
#[derive(Clone, Debug)]
pub struct HabitOccurrence {
    pub evidence: HabitOccurrenceEvidence,
    pub outcome: Option<HabitOutcome>,
    pub missed_resolution: Option<HabitMissedResolution>,
}

/// A time during which a habit rests. Without an end it is still open.
#[derive(Clone, Copy, Debug, PartialEq, Eq, Structural)]
pub struct HabitPause {
    pub id: Uuid,
    pub habit_id: Uuid,
    pub revision: u64,
    pub started_at: Instant,
    pub ended_at: Option<Instant>,
    pub preserves_streak: bool,
    pub created_at: Instant,
    pub updated_at: Instant,
}

/// One entry of the stream of changes.
#[derive(Clone, Debug)]
pub enum HabitDeltaChange {
    OccurrenceUpsert { occurrence: HabitOccurrence },
    PauseUpsert { pause: HabitPause },
}

/// A part of the stream of changes.
#[derive(Clone, Debug)]
pub struct HabitDeltaPage {
    pub changes: Vec<HabitDeltaChange>,
    pub watermark: u64,
    pub has_more: bool,
}

/// What a habit is at present, as far as missed occurrences go.
#[derive(Clone, Copy, Debug)]
pub struct HabitMissedConfiguration {
    pub item_revision: u64,
    pub policy_fingerprint: [u8; 32],
    pub policy: HabitMissedPolicy,
    pub is_active: bool,
}

/// What a pass over missed occurrences decided, and whether there is more to do.
#[derive(Clone, Debug)]
pub struct HabitMissedReconcileResult {
    pub resolutions: Vec<HabitMissedResolution>,
    pub has_more: bool,
}

/// A value, and whether it was answered from an earlier request.
#[derive(Clone, Debug)]
pub struct HabitMutation<T> {
    pub value: T,
    pub replayed: bool,
}

/// What makes a request recognisable when it is sent again.
#[derive(Clone, Debug)]
pub struct HabitIdempotency {
    pub namespace: String,
    pub key_hash: [u8; 32],
    pub request_fingerprint: [u8; 32],
    pub operation_id: Uuid,
    pub actor_session_id: Option<Uuid>,
}

/// A report to store.
#[derive(Clone, Debug)]
pub struct OutcomeWrite {
    pub habit_id: Uuid,
    pub occurrence_id: Uuid,
    pub expected_revision: u64,
    pub outcome: HabitOutcomeInput,
    pub recorded_at: Instant,
    pub idempotency: HabitIdempotency,
}

/// A pause to begin.
#[derive(Clone, Debug)]
pub struct PauseCreate {
    pub id: Uuid,
    pub habit_id: Uuid,
    pub expected_revision: u64,
    pub started_at: Instant,
    pub preserves_streak: bool,
    pub recorded_at: Instant,
    pub idempotency: HabitIdempotency,
}

/// A pause to end.
#[derive(Clone, Debug)]
pub struct PauseResume {
    pub id: Uuid,
    pub habit_id: Uuid,
    pub expected_revision: u64,
    pub ended_at: Instant,
    pub recorded_at: Instant,
    pub idempotency: HabitIdempotency,
}

/// A pass over the missed occurrences of some habits.
#[derive(Clone, Debug)]
pub struct MissedReconcileWrite {
    pub policies: BTreeMap<Uuid, HabitMissedConfiguration>,
    pub limit: usize,
    pub recorded_at: Instant,
    pub idempotency: HabitIdempotency,
}

/// A person's choice for one missed occurrence.
#[derive(Clone, Debug)]
pub struct MissedResolveWrite {
    pub habit_id: Uuid,
    pub occurrence_id: Uuid,
    pub expected_revision: u64,
    pub action: HabitMissedExplicitAction,
    pub current_item_revision: u64,
    pub current_policy_fingerprint: [u8; 32],
    pub current_item_is_active: bool,
    pub recorded_at: Instant,
    pub idempotency: HabitIdempotency,
}

/// Why a request about habits is refused.
#[derive(Clone, Debug)]
pub enum HabitRepositoryError {
    HabitNotFound(Uuid),
    NotHabit(Uuid),
    OccurrenceNotFound(Uuid),
    PauseNotFound(Uuid),
    MissedResolutionNotFound(Uuid),
    MissedResolutionAlreadyResolved(Box<HabitMissedResolution>),
    MissedReductionUnavailable,
    PauseIdentityConflict(Box<HabitPause>),
    OpenPauseConflict(Box<HabitPause>),
    PauseAlreadyClosed(Box<HabitPause>),
    InvalidPauseInterval,
    TargetUnitMismatch,
    EvidenceConflict,
    RevisionConflict {
        expected: u64,
        actual: u64,
        current_occurrence: Option<Box<HabitOccurrence>>,
        current_pause: Option<Box<HabitPause>>,
    },
    IdempotencyConflict,
    ReconcileReceiptCapacity,
    InvalidCursor,
    Internal,
}

/// Any failure of the storage is an internal error.
pub fn storage<T>(_error: T) -> (result: HabitRepositoryError)
    ensures
        result == HabitRepositoryError::Internal,
{
    HabitRepositoryError::Internal
}

/// A number as the database stores it.
pub fn to_i64(value: u64) -> (result: Result<i64, HabitRepositoryError>)
    ensures
        match result {
            Ok(stored) => stored == value,
            Err(error) => value > i64::MAX && error == HabitRepositoryError::Internal,
        },
{
    match crate::numbers::signed(value) {
        Some(stored) => Ok(stored),
        None => Err(HabitRepositoryError::Internal),
    }
}

/// A number as the database stored it.
pub fn from_i64(value: i64) -> (result: Result<u64, HabitRepositoryError>)
    ensures
        match result {
            Ok(read) => read == value,
            Err(error) => value < 0 && error == HabitRepositoryError::Internal,
        },
{
    match crate::numbers::unsigned(value) {
        Some(read) => Ok(read),
        None => Err(HabitRepositoryError::Internal),
    }
}

} // verus!
