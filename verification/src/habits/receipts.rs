//! Receipts: what a request was answered, kept so that the same request is answered
//! the same way when it is sent again.
use std::collections::BTreeSet;

use vstd::prelude::*;

use crate::habits::model::{
    HabitDeltaChange, HabitIdempotency, HabitMissedReconcileResult, HabitMissedResolution,
    HabitMissedResolutionAction, HabitOccurrence, HabitPause, HabitRepositoryError,
};
use crate::hashing::same_bytes_and_hash;
use crate::ids::holds_id;
use crate::text::same_text;
use crate::time::Uuid;

verus! {

/// How many resolutions a stored answer may hold.
pub const MAX_STORED_RECONCILE_RESOLUTIONS: usize = 200;

/// How many answers without content a workspace keeps.
pub const MAX_EPHEMERAL_RECEIPTS: i64 = 4_096;

/// The namespace of the passes over missed occurrences.
pub const MISSED_RECONCILE_NAMESPACE: &'static str = "habits.missed.reconcile";

/// The kind of resource under which answers without content are kept.
pub const MISSED_RECONCILE_EPHEMERAL_RESOURCE: &'static str = "habit_missed_reconcile_receipt";

/// What a request was answered.
#[derive(Clone, Debug)]
pub enum StoredReceipt {
    Occurrence(HabitOccurrence),
    Pause(HabitPause),
    MissedReconcile(HabitMissedReconcileResult),
    MissedResolution(HabitMissedResolution),
}

/// Whether the parts of an occurrence speak of the same occurrence, and a reduction
/// does not leave out the occurrence that was missed.
pub open spec fn parts_agree(occurrence: HabitOccurrence) -> bool {
    match occurrence.missed_resolution {
        None => true,
        Some(resolution) => {
            &&& resolution.occurrence_evidence_id == occurrence.evidence.id
            &&& resolution.habit_id == occurrence.evidence.habit_id
            &&& resolution.source_planner_occurrence_id
                == occurrence.evidence.planner_occurrence_id
            &&& match resolution.action {
                HabitMissedResolutionAction::ReduceFrequency {
                    suppressed_planner_occurrence_ids,
                } => !suppressed_planner_occurrence_ids@.contains(
                    occurrence.evidence.planner_occurrence_id,
                ),
                _ => true,
            }
        },
    }
}

/// Whether no two of the resolutions are about the same occurrence.
pub open spec fn distinct_evidence(resolutions: Seq<HabitMissedResolution>) -> bool {
    forall|i: int, j: int|
        0 <= i < j < resolutions.len() ==> #[trigger] resolutions[i].occurrence_evidence_id
            != #[trigger] resolutions[j].occurrence_evidence_id
}

/// A resolution is taken if its content satisfies the rules for resolutions.
pub fn validate_resolution(content_valid: bool) -> (result: Result<(), HabitRepositoryError>)
    ensures
        result == (if content_valid {
            Ok::<(), HabitRepositoryError>(())
        } else {
            Err(HabitRepositoryError::Internal)
        }),
{
    if content_valid {
        Ok(())
    } else {
        Err(HabitRepositoryError::Internal)
    }
}

/// An occurrence is taken if its content satisfies the rules for evidence and for
/// resolutions, and its parts agree.
pub fn validate_occurrence(occurrence: &HabitOccurrence, content_valid: bool) -> (result: Result<
    (),
    HabitRepositoryError,
>)
    ensures
        result == (if content_valid && parts_agree(*occurrence) {
            Ok::<(), HabitRepositoryError>(())
        } else {
            Err(HabitRepositoryError::Internal)
        }),
{
    if !content_valid {
        return Err(HabitRepositoryError::Internal);
    }
    match &occurrence.missed_resolution {
        Some(resolution) => {
            let suppresses_itself: bool = match &resolution.action {
                HabitMissedResolutionAction::ReduceFrequency {
                    suppressed_planner_occurrence_ids,
                } => holds_id(
                    suppressed_planner_occurrence_ids,
                    occurrence.evidence.planner_occurrence_id,
                ),
                _ => false,
            };
            if resolution.occurrence_evidence_id != occurrence.evidence.id || resolution.habit_id
                != occurrence.evidence.habit_id || resolution.source_planner_occurrence_id
                != occurrence.evidence.planner_occurrence_id || suppresses_itself {
                return Err(HabitRepositoryError::Internal);
            }
        },
        None => {},
    }
    Ok(())
}

/// A change is taken if the occurrence that it carries is taken.
pub fn validate_change(change: &HabitDeltaChange, content_valid: bool) -> (result: Result<
    (),
    HabitRepositoryError,
>)
    ensures
        result == (match *change {
            HabitDeltaChange::OccurrenceUpsert { occurrence } => if content_valid && parts_agree(
                occurrence,
            ) {
                Ok::<(), HabitRepositoryError>(())
            } else {
                Err(HabitRepositoryError::Internal)
            },
            HabitDeltaChange::PauseUpsert { .. } => Ok(()),
        }),
{
    match change {
        HabitDeltaChange::OccurrenceUpsert { occurrence } => validate_occurrence(
            occurrence,
            content_valid,
        ),
        HabitDeltaChange::PauseUpsert { .. } => Ok(()),
    }
}

impl StoredReceipt {
    /// Whether the receipt can be kept and given out again.
    pub open spec fn sound(self, content_valid: bool) -> bool {
        match self {
            StoredReceipt::Occurrence(occurrence) => content_valid && parts_agree(occurrence),
            StoredReceipt::MissedReconcile(result) => {
                &&& content_valid
                &&& result.resolutions@.len() <= MAX_STORED_RECONCILE_RESOLUTIONS
                &&& distinct_evidence(result.resolutions@)
            },
            StoredReceipt::MissedResolution(_) => content_valid,
            StoredReceipt::Pause(_) => true,
        }
    }

    /// A receipt is taken if its content satisfies the rules for evidence and for
    /// resolutions, and its parts agree.
    pub fn validate(&self, content_valid: bool) -> (result: Result<(), HabitRepositoryError>)
        ensures
            result == (if self.sound(content_valid) {
                Ok::<(), HabitRepositoryError>(())
            } else {
                Err(HabitRepositoryError::Internal)
            }),
    {
        match self {
            StoredReceipt::Occurrence(occurrence) => validate_occurrence(occurrence, content_valid),
            StoredReceipt::MissedReconcile(answer) => {
                if answer.resolutions.len() > MAX_STORED_RECONCILE_RESOLUTIONS {
                    return Err(HabitRepositoryError::Internal);
                }
                validate_resolution(content_valid)?;
                let mut evidence_ids: BTreeSet<Uuid> = BTreeSet::new();
                let mut i: usize = 0;
                while i < answer.resolutions.len()
                    invariant
                        i <= answer.resolutions.len(),
                        *self == StoredReceipt::MissedReconcile(*answer),
                        distinct_evidence(answer.resolutions@.take(i as int)),
                        forall|id: Uuid|
                            evidence_ids@.contains(id) <==> exists|k: int|
                                0 <= k < i && #[trigger] answer.resolutions@[k].occurrence_evidence_id
                                    == id,
                        content_valid,
                        answer.resolutions@.len() <= MAX_STORED_RECONCILE_RESOLUTIONS,
                    decreases answer.resolutions.len() - i,
                {
                    let id: Uuid = answer.resolutions[i].occurrence_evidence_id;
                    if evidence_ids.contains(&id) {
                        return Err(HabitRepositoryError::Internal);
                    }
                    evidence_ids.insert(id);
                    assert(answer.resolutions@[i as int].occurrence_evidence_id == id);
                    i = i + 1;
                }
                assert(answer.resolutions@.take(i as int) =~= answer.resolutions@);
                Ok(())
            },
            StoredReceipt::MissedResolution(_) => validate_resolution(content_valid),
            StoredReceipt::Pause(_) => Ok(()),
        }
    }
}

/// A receipt as it is stored.
#[derive(Debug)]
pub struct ReceiptRow {
    pub namespace: String,
    pub key_hash: Vec<u8>,
    pub request_fingerprint: Vec<u8>,
    /// The answer, if it can be read.
    pub receipt: Option<StoredReceipt>,
    /// Whether the content of the answer satisfies the rules for evidence and for
    /// resolutions.
    pub content_valid: bool,
}

/// Whether a receipt was written for this request.
pub open spec fn written_for(row: ReceiptRow, idempotency: HabitIdempotency) -> bool {
    &&& row.namespace@ == idempotency.namespace@
    &&& row.key_hash@ == idempotency.key_hash@
    &&& row.request_fingerprint@ == idempotency.request_fingerprint@
}

/// What a request is answered from the receipts that share its key or its operation.
pub open spec fn replay_answer(rows: Seq<ReceiptRow>, idempotency: HabitIdempotency) -> Result<
    Option<StoredReceipt>,
    HabitRepositoryError,
> {
    if rows.len() == 0 {
        Ok(None)
    } else if rows.len() != 1 || !written_for(rows[0], idempotency) {
        Err(HabitRepositoryError::IdempotencyConflict)
    } else {
        match rows[0].receipt {
            Some(receipt) => if receipt.sound(rows[0].content_valid) {
                Ok(Some(receipt))
            } else {
                Err(HabitRepositoryError::Internal)
            },
            None => Err(HabitRepositoryError::Internal),
        }
    }
}

/// Whether an answer without content is looked for by the key of the request too, and
/// not by its operation alone.
pub fn searches_ephemeral_by_key(idempotency: &HabitIdempotency) -> (result: bool)
    ensures
        result == (idempotency.namespace@ == MISSED_RECONCILE_NAMESPACE@),
{
    same_text(idempotency.namespace.as_str(), MISSED_RECONCILE_NAMESPACE)
}

/// What a request was answered before.
///
/// `permanent` and `ephemeral` are the receipts that share its key or its operation.
/// Those without content are looked at only where there is no other.
pub fn replay_receipt(
    permanent: Vec<ReceiptRow>,
    ephemeral: Vec<ReceiptRow>,
    idempotency: &HabitIdempotency,
) -> (result: Result<Option<StoredReceipt>, HabitRepositoryError>)
    ensures
        result == replay_answer(
            if permanent@.len() == 0 {
                ephemeral@
            } else {
                permanent@
            },
            *idempotency,
        ),
{
    let mut rows: Vec<ReceiptRow> = if permanent.len() == 0 {
        ephemeral
    } else {
        permanent
    };
    if rows.len() == 0 {
        return Ok(None);
    }
    if rows.len() != 1 {
        return Err(HabitRepositoryError::IdempotencyConflict);
    }
    let ghost all = rows@;
    let row: ReceiptRow = rows.remove(0);
    assert(row == all[0]);
    if !same_text(row.namespace.as_str(), idempotency.namespace.as_str()) || !same_bytes_and_hash(
        &row.key_hash,
        &idempotency.key_hash,
    ) || !same_bytes_and_hash(&row.request_fingerprint, &idempotency.request_fingerprint) {
        return Err(HabitRepositoryError::IdempotencyConflict);
    }
    match row.receipt {
        Some(receipt) => {
            receipt.validate(row.content_valid)?;
            Ok(Some(receipt))
        },
        None => Err(HabitRepositoryError::Internal),
    }
}

/// The occurrence that a report was answered.
pub fn replay_outcome(receipt: Option<StoredReceipt>) -> (result: Result<
    Option<HabitOccurrence>,
    HabitRepositoryError,
>)
    ensures
        result == (match receipt {
            None => Ok::<Option<HabitOccurrence>, HabitRepositoryError>(None),
            Some(StoredReceipt::Occurrence(value)) => Ok(Some(value)),
            Some(_) => Err(HabitRepositoryError::IdempotencyConflict),
        }),
{
    match receipt {
        None => Ok(None),
        Some(StoredReceipt::Occurrence(value)) => Ok(Some(value)),
        Some(_) => Err(HabitRepositoryError::IdempotencyConflict),
    }
}

/// The pause that a request about pauses was answered.
pub fn replay_pause(receipt: Option<StoredReceipt>) -> (result: Result<
    Option<HabitPause>,
    HabitRepositoryError,
>)
    ensures
        result == (match receipt {
            None => Ok::<Option<HabitPause>, HabitRepositoryError>(None),
            Some(StoredReceipt::Pause(value)) => Ok(Some(value)),
            Some(_) => Err(HabitRepositoryError::IdempotencyConflict),
        }),
{
    match receipt {
        None => Ok(None),
        Some(StoredReceipt::Pause(value)) => Ok(Some(value)),
        Some(_) => Err(HabitRepositoryError::IdempotencyConflict),
    }
}

/// What a pass over missed occurrences was answered.
pub fn replay_missed_reconcile(receipt: Option<StoredReceipt>) -> (result: Result<
    Option<HabitMissedReconcileResult>,
    HabitRepositoryError,
>)
    ensures
        result == (match receipt {
            None => Ok::<Option<HabitMissedReconcileResult>, HabitRepositoryError>(None),
            Some(StoredReceipt::MissedReconcile(value)) => Ok(Some(value)),
            Some(_) => Err(HabitRepositoryError::IdempotencyConflict),
        }),
{
    match receipt {
        None => Ok(None),
        Some(StoredReceipt::MissedReconcile(value)) => Ok(Some(value)),
        Some(_) => Err(HabitRepositoryError::IdempotencyConflict),
    }
}

/// What a choice for a missed occurrence was answered.
pub fn replay_missed_resolution(receipt: Option<StoredReceipt>) -> (result: Result<
    Option<HabitMissedResolution>,
    HabitRepositoryError,
>)
    ensures
        result == (match receipt {
            None => Ok::<Option<HabitMissedResolution>, HabitRepositoryError>(None),
            Some(StoredReceipt::MissedResolution(value)) => Ok(Some(value)),
            Some(_) => Err(HabitRepositoryError::IdempotencyConflict),
        }),
{
    match receipt {
        None => Ok(None),
        Some(StoredReceipt::MissedResolution(value)) => Ok(Some(value)),
        Some(_) => Err(HabitRepositoryError::IdempotencyConflict),
    }
}

/// Why a receipt could not be stored. A receipt that is there already belongs to
/// another request.
pub fn receipt_insert_error(unique_violation: bool) -> (result: HabitRepositoryError)
    ensures
        result == (if unique_violation {
            HabitRepositoryError::IdempotencyConflict
        } else {
            HabitRepositoryError::Internal
        }),
{
    if unique_violation {
        HabitRepositoryError::IdempotencyConflict
    } else {
        HabitRepositoryError::Internal
    }
}

/// Whether an old answer without content has to go before another is kept.
pub fn evicts_ephemeral_receipt(retained: i64) -> (result: bool)
    ensures
        result == (retained >= MAX_EPHEMERAL_RECEIPTS),
{
    retained >= MAX_EPHEMERAL_RECEIPTS
}

/// Whether another answer without content can be kept, once an old one has gone where
/// one could go.
pub fn admit_ephemeral_receipt(retained: i64) -> (result: Result<(), HabitRepositoryError>)
    ensures
        result == (if retained >= MAX_EPHEMERAL_RECEIPTS {
            Err::<(), HabitRepositoryError>(HabitRepositoryError::ReconcileReceiptCapacity)
        } else {
            Ok(())
        }),
{
    if retained >= MAX_EPHEMERAL_RECEIPTS {
        Err(HabitRepositoryError::ReconcileReceiptCapacity)
    } else {
        Ok(())
    }
}

/// A request that is sent again is answered as it was answered before.
pub proof fn same_request_is_answered_alike(row: ReceiptRow, idempotency: HabitIdempotency)
    requires
        written_for(row, idempotency),
        row.receipt is Some,
        row.receipt->0.sound(row.content_valid),
    ensures
        replay_answer(seq![row], idempotency) == Ok::<
            Option<StoredReceipt>,
            HabitRepositoryError,
        >(row.receipt),
{
}

/// A request that uses the key or the operation of another is refused.
pub proof fn other_request_is_refused(row: ReceiptRow, idempotency: HabitIdempotency)
    requires
        !written_for(row, idempotency),
    ensures
        replay_answer(seq![row], idempotency) == Err::<
            Option<StoredReceipt>,
            HabitRepositoryError,
        >(HabitRepositoryError::IdempotencyConflict),
{
}

} // verus!
