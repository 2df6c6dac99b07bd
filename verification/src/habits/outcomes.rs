//! Reports of how occurrences turned out, and the stream of changes.
use vstd::prelude::*;
use vstd::string::StringExecFns;

use crate::habits::model::{
    from_i64, to_i64, HabitDeltaChange, HabitDeltaPage, HabitMissedResolution, HabitOccurrence,
    HabitOccurrenceEvidence, HabitOutcome, HabitOutcomeStatus, HabitRepositoryError, OutcomeWrite,
};
use crate::habits::receipts::{replay_outcome, validate_change, StoredReceipt};
use crate::json::Json;
use crate::outside::uuid_text;
use crate::text::{decimal, same_text};
use crate::time::{Instant, Uuid};

verus! {

/// The item behind a habit, as far as requests about the habit look at it.
#[derive(Debug)]
pub struct HabitItemRow {
    pub kind: String,
    pub has_recurrence: bool,
    pub constraints: Json,
}

/// Why a habit takes no requests: there is no such item, or it is no recurring habit.
pub open spec fn habit_refusal(habit_id: Uuid, row: Option<HabitItemRow>) -> Option<
    HabitRepositoryError,
> {
    match row {
        None => Some(HabitRepositoryError::HabitNotFound(habit_id)),
        Some(item) => if item.kind@ != "habit"@ || !item.has_recurrence {
            Some(HabitRepositoryError::NotHabit(habit_id))
        } else {
            None
        },
    }
}

/// The constraints of a habit that takes requests.
pub fn require_active_habit(habit_id: Uuid, row: Option<HabitItemRow>) -> (result: Result<
    Json,
    HabitRepositoryError,
>)
    ensures
        match result {
            Ok(constraints) => habit_refusal(habit_id, row) is None && constraints
                == row->0.constraints,
            Err(error) => habit_refusal(habit_id, row) == Some(error),
        },
{
    match row {
        None => Err(HabitRepositoryError::HabitNotFound(habit_id)),
        Some(item) => if !same_text(item.kind.as_str(), "habit") || !item.has_recurrence {
            Err(HabitRepositoryError::NotHabit(habit_id))
        } else {
            Ok(item.constraints)
        },
    }
}

/// The entry of the audit log for a change.
#[derive(Clone, Copy, Debug)]
pub struct HabitAudit {
    pub operation_type: &'static str,
    pub entity_type: &'static str,
    pub entity_id: Uuid,
    /// The revision that was changed, if there was one.
    pub base_revision: Option<i64>,
    pub result_revision: i64,
}

/// Whether the entry tells of a change from one revision to another.
pub open spec fn audit_tells(
    audit: HabitAudit,
    operation_type: Seq<char>,
    entity_type: Seq<char>,
    entity_id: Uuid,
    base_revision: u64,
    result_revision: u64,
) -> bool {
    &&& audit.operation_type@ == operation_type
    &&& audit.entity_type@ == entity_type
    &&& audit.entity_id == entity_id
    &&& match audit.base_revision {
        Some(base) => base_revision > 0 && base == base_revision,
        None => base_revision == 0,
    }
    &&& audit.result_revision == result_revision
}

/// The entry of the audit log for a change.
pub fn audit_entry(
    operation_type: &'static str,
    entity_type: &'static str,
    entity_id: Uuid,
    base_revision: u64,
    result_revision: u64,
) -> (result: Result<HabitAudit, HabitRepositoryError>)
    ensures
        match result {
            Ok(audit) => audit_tells(
                audit,
                operation_type@,
                entity_type@,
                entity_id,
                base_revision,
                result_revision,
            ),
            Err(error) => (base_revision > i64::MAX || result_revision > i64::MAX) && error
                == HabitRepositoryError::Internal,
        },
{
    let base: Option<i64> = if base_revision > 0 {
        Some(to_i64(base_revision)?)
    } else {
        None
    };
    Ok(
        HabitAudit {
            operation_type,
            entity_type,
            entity_id,
            base_revision: base,
            result_revision: to_i64(result_revision)?,
        },
    )
}

/// The key under which subscribers are told of a change once.
pub open spec fn habit_deduplication_text(entity_id: Uuid, sequence: u64) -> Seq<char> {
    "habit:"@ + crate::outside::text_of_uuid(entity_id) + ":"@ + crate::text::decimal_text(
        sequence as nat,
    )
}

/// The key under which subscribers are told of a change once.
pub fn habit_deduplication_key(entity_id: Uuid, sequence: u64) -> (result: String)
    ensures
        result@ == habit_deduplication_text(entity_id, sequence),
{
    let mut key: String = "habit:".to_owned();
    let id: String = uuid_text(entity_id);
    key.append(id.as_str());
    key.append(":");
    let number: String = decimal(sequence);
    key.append(number.as_str());
    key
}

/// The revision of what is known of how an occurrence turned out.
pub open spec fn outcome_revision(occurrence: HabitOccurrence) -> u64 {
    match occurrence.outcome {
        Some(outcome) => outcome.revision,
        None => 0,
    }
}

/// Whether a report counts in another unit than the occurrence expects.
pub open spec fn unit_differs(expected: Option<String>, actual: Option<String>) -> bool {
    match (expected, actual) {
        (Some(e), Some(a)) => e@ != a@,
        _ => false,
    }
}

/// Why a report is refused.
pub open spec fn outcome_refusal(
    row: Option<HabitItemRow>,
    occurrence: Option<HabitOccurrence>,
    write: OutcomeWrite,
) -> Option<HabitRepositoryError> {
    match habit_refusal(write.habit_id, row) {
        Some(error) => Some(error),
        None => match occurrence {
            None => Some(HabitRepositoryError::OccurrenceNotFound(write.occurrence_id)),
            Some(current) => if outcome_revision(current) != write.expected_revision {
                Some(
                    HabitRepositoryError::RevisionConflict {
                        expected: write.expected_revision,
                        actual: outcome_revision(current),
                        current_occurrence: Some(Box::new(current)),
                        current_pause: None,
                    },
                )
            } else if unit_differs(current.evidence.expected_unit, write.outcome.unit) {
                Some(HabitRepositoryError::TargetUnitMismatch)
            } else if outcome_revision(current) >= i64::MAX || (write.outcome.actual_seconds is Some
                && write.outcome.actual_seconds->0 > i64::MAX) {
                Some(HabitRepositoryError::Internal)
            } else {
                None
            },
        },
    }
}

/// What storing a report writes.
#[derive(Debug)]
pub struct OutcomePlan {
    pub updated: HabitOccurrence,
    pub previous_outcome: Option<HabitOutcome>,
    /// The revision that the stored report must still have.
    pub previous_revision: i64,
    pub revision: i64,
    pub audit: HabitAudit,
}

/// Whether `plan` is what storing a report writes.
pub open spec fn outcome_plan_fits(
    current: HabitOccurrence,
    write: OutcomeWrite,
    plan: OutcomePlan,
) -> bool {
    let revision = (outcome_revision(current) + 1) as u64;
    &&& plan.updated == (HabitOccurrence {
        evidence: current.evidence,
        outcome: Some(HabitOutcome::of_input(write.outcome, revision, write.recorded_at)),
        missed_resolution: current.missed_resolution,
    })
    &&& plan.previous_outcome == current.outcome
    &&& plan.previous_revision == outcome_revision(current)
    &&& plan.revision == revision
    &&& audit_tells(
        plan.audit,
        "habit.occurrence.outcome"@,
        "habit_occurrence"@,
        write.occurrence_id,
        outcome_revision(current),
        revision,
    )
}

/// What a report is answered: what it was answered before, or what storing it writes.
#[derive(Debug)]
pub enum OutcomeStep {
    Replayed(HabitOccurrence),
    Write(OutcomePlan),
}

/// What a report is answered, and what storing it writes.
///
/// `receipt` is what the request was answered before; `row` and `occurrence` are the
/// habit and the occurrence that it is about, if there are such.
pub fn put_outcome(
    receipt: Option<StoredReceipt>,
    row: Option<HabitItemRow>,
    occurrence: Option<HabitOccurrence>,
    write: OutcomeWrite,
) -> (result: Result<OutcomeStep, HabitRepositoryError>)
    ensures
        match receipt {
            Some(StoredReceipt::Occurrence(value)) => result == Ok::<
                OutcomeStep,
                HabitRepositoryError,
            >(OutcomeStep::Replayed(value)),
            Some(_) => result == Err::<OutcomeStep, HabitRepositoryError>(
                HabitRepositoryError::IdempotencyConflict,
            ),
            None => match result {
                Ok(step) => {
                    &&& outcome_refusal(row, occurrence, write) is None
                    &&& step is Write
                    &&& outcome_plan_fits(occurrence->0, write, step->Write_0)
                },
                Err(error) => outcome_refusal(row, occurrence, write) == Some(error),
            },
        },
{
    match replay_outcome(receipt) {
        Ok(Some(value)) => {
            return Ok(OutcomeStep::Replayed(value));
        },
        Ok(None) => {},
        Err(error) => {
            return Err(error);
        },
    }
    let _constraints: Json = require_active_habit(write.habit_id, row)?;
    let current: HabitOccurrence = match occurrence {
        Some(current) => current,
        None => {
            return Err(HabitRepositoryError::OccurrenceNotFound(write.occurrence_id));
        },
    };
    let actual_revision: u64 = match &current.outcome {
        Some(outcome) => outcome.revision,
        None => 0,
    };
    if actual_revision != write.expected_revision {
        return Err(
            HabitRepositoryError::RevisionConflict {
                expected: write.expected_revision,
                actual: actual_revision,
                current_occurrence: Some(Box::new(current)),
                current_pause: None,
            },
        );
    }
    match (&current.evidence.expected_unit, &write.outcome.unit) {
        (Some(expected), Some(actual)) => {
            if !same_text(expected.as_str(), actual.as_str()) {
                return Err(HabitRepositoryError::TargetUnitMismatch);
            }
        },
        _ => {},
    }
    if actual_revision == u64::MAX {
        return Err(HabitRepositoryError::Internal);
    }
    let revision: u64 = actual_revision + 1;
    let stored_revision: i64 = to_i64(revision)?;
    match write.outcome.actual_seconds {
        Some(seconds) => {
            let _stored: i64 = to_i64(seconds)?;
        },
        None => {},
    }
    let previous_revision: i64 = to_i64(actual_revision)?;
    let audit: HabitAudit = audit_entry(
        "habit.occurrence.outcome",
        "habit_occurrence",
        write.occurrence_id,
        actual_revision,
        revision,
    )?;
    let evidence: HabitOccurrenceEvidence = current.evidence;
    let missed_resolution: Option<HabitMissedResolution> = current.missed_resolution;
    let previous_outcome: Option<HabitOutcome> = current.outcome;
    let outcome: HabitOutcome = HabitOutcome::from_input(
        write.outcome,
        revision,
        write.recorded_at,
    );
    Ok(
        OutcomeStep::Write(
            OutcomePlan {
                updated: HabitOccurrence { evidence, outcome: Some(outcome), missed_resolution },
                previous_outcome,
                previous_revision,
                revision: stored_revision,
                audit,
            },
        ),
    )
}

/// A report changes nothing but how the occurrence turned out, and moves its revision
/// on by one. So of two reports for one revision only one is stored.
pub proof fn report_changes_the_outcome_alone(
    row: Option<HabitItemRow>,
    current: HabitOccurrence,
    write: OutcomeWrite,
    plan: OutcomePlan,
    later: OutcomeWrite,
)
    requires
        outcome_refusal(row, Some(current), write) is None,
        outcome_plan_fits(current, write, plan),
        later.expected_revision == write.expected_revision,
    ensures
        plan.updated.evidence == current.evidence,
        plan.updated.missed_resolution == current.missed_resolution,
        outcome_revision(plan.updated) == outcome_revision(current) + 1,
        outcome_refusal(row, Some(plan.updated), later) is Some,
{
}

/// An entry of the stream of changes, as it is stored.
#[derive(Debug)]
pub struct HabitChangeRow {
    pub sequence: i64,
    /// The change, if it can be read.
    pub change: Option<HabitDeltaChange>,
    /// Whether its content satisfies the rules for evidence and for resolutions.
    pub content_valid: bool,
}

/// Whether an entry of the stream can be given out.
pub open spec fn change_readable(row: HabitChangeRow) -> bool {
    &&& row.sequence >= 0
    &&& match row.change {
        Some(HabitDeltaChange::OccurrenceUpsert { occurrence }) => row.content_valid
            && crate::habits::receipts::parts_agree(occurrence),
        Some(HabitDeltaChange::PauseUpsert { .. }) => true,
        None => false,
    }
}

/// The smaller of a number of rows and a limit.
pub open spec fn page_length(rows: nat, limit: usize) -> int {
    if rows <= limit {
        rows as int
    } else {
        limit as int
    }
}

/// How many entries are read for a page: one more than it holds, to see whether there
/// are more.
pub fn page_fetch_limit(limit: usize) -> (result: Result<i64, HabitRepositoryError>)
    ensures
        match result {
            Ok(count) => count == if limit == usize::MAX {
                usize::MAX as int
            } else {
                limit + 1
            },
            Err(error) => limit >= i64::MAX && error == HabitRepositoryError::Internal,
        },
{
    let wanted: usize = if limit == usize::MAX {
        limit
    } else {
        limit + 1
    };
    to_i64(wanted as u64)
}

/// A part of the stream of changes behind `after`.
///
/// `rows` are the entries behind `after` in their order, at most one more than the
/// limit; `head` is the sequence of the last entry of all.
pub fn delta(after: u64, head: u64, limit: usize, rows: Vec<HabitChangeRow>) -> (result: Result<
    HabitDeltaPage,
    HabitRepositoryError,
>)
    ensures
        match result {
            Ok(page) => {
                let count = page_length(rows@.len(), limit);
                &&& after <= head
                &&& forall|k: int| 0 <= k < count ==> change_readable(#[trigger] rows@[k])
                &&& page.has_more == (rows@.len() > limit)
                &&& page.changes@.len() == count
                &&& forall|k: int|
                    0 <= k < count ==> Some(#[trigger] page.changes@[k]) == rows@[k].change
                &&& page.watermark == if count == 0 {
                    after as int
                } else {
                    rows@[count - 1].sequence as int
                }
            },
            Err(HabitRepositoryError::InvalidCursor) => after > head,
            Err(error) => {
                &&& after <= head
                &&& error == HabitRepositoryError::Internal
                &&& exists|k: int|
                    0 <= k < page_length(rows@.len(), limit) && !change_readable(
                        #[trigger] rows@[k],
                    )
            },
        },
{
    if after > head {
        return Err(HabitRepositoryError::InvalidCursor);
    }
    let ghost all = rows@;
    let has_more: bool = rows.len() > limit;
    let count: usize = if rows.len() <= limit {
        rows.len()
    } else {
        limit
    };
    let mut watermark: u64 = after;
    let mut changes: Vec<HabitDeltaChange> = Vec::new();
    let mut remaining: Vec<HabitChangeRow> = rows;
    let mut i: usize = 0;
    while i < count
        invariant
            i <= count,
            count == page_length(all.len(), limit),
            count <= all.len(),
            after <= head,
            rows@ == all,
            remaining@ == all.skip(i as int),
            changes@.len() == i,
            forall|k: int| 0 <= k < i ==> change_readable(#[trigger] all[k]),
            forall|k: int| 0 <= k < i ==> Some(#[trigger] changes@[k]) == all[k].change,
            watermark == if i == 0 {
                after as int
            } else {
                all[i - 1].sequence as int
            },
        decreases count - i,
    {
        let row: HabitChangeRow = remaining.remove(0);
        assert(row == all[i as int]);
        assert(remaining@ =~= all.skip(i + 1));
        watermark = match from_i64(row.sequence) {
            Ok(sequence) => sequence,
            Err(error) => {
                assert(!change_readable(all[i as int]));
                return Err(error);
            },
        };
        match row.change {
            Some(change) => {
                match validate_change(&change, row.content_valid) {
                    Ok(_) => {},
                    Err(error) => {
                        assert(!change_readable(all[i as int]));
                        return Err(error);
                    },
                }
                changes.push(change);
            },
            None => {
                assert(!change_readable(all[i as int]));
                return Err(HabitRepositoryError::Internal);
            },
        }
        i = i + 1;
    }
    Ok(HabitDeltaPage { changes, watermark, has_more })
}

/// Reading on from the watermark of a page misses nothing and repeats nothing: the
/// entries of the page are those up to its watermark, and no others.
pub proof fn pages_join(sequences: Seq<i64>, after: u64, limit: usize, watermark: int)
    requires
        forall|i: int, j: int|
            0 <= i < j < sequences.len() ==> #[trigger] sequences[i] < #[trigger] sequences[j],
        forall|i: int| 0 <= i < sequences.len() ==> after < #[trigger] sequences[i],
        watermark == if page_length(sequences.len(), limit) == 0 {
            after as int
        } else {
            sequences[page_length(sequences.len(), limit) - 1] as int
        },
    ensures
        forall|k: int|
            0 <= k < sequences.len() ==> (k < page_length(sequences.len(), limit)
                <==> #[trigger] sequences[k] <= watermark),
        after <= watermark,
{
    let count = page_length(sequences.len(), limit);
    assert forall|k: int| 0 <= k < sequences.len() implies (k < count
        <==> #[trigger] sequences[k] <= watermark) by {
        if count > 0 {
            if k < count - 1 {
                assert(sequences[k] < sequences[count - 1]);
            }
            if k >= count {
                assert(sequences[count - 1] < sequences[k]);
            }
        }
    }
}

/// The occurrences of a page, and whether there are more: `rows` are at most one more
/// than the page holds.
pub fn list_occurrences(rows: Vec<HabitOccurrence>, limit: usize) -> (result: (
    Vec<HabitOccurrence>,
    bool,
))
    ensures
        result.0@ == rows@.take(page_length(rows@.len(), limit)),
        result.1 == (rows@.len() > limit),
{
    let mut values: Vec<HabitOccurrence> = rows;
    let has_more: bool = values.len() > limit;
    if has_more {
        values.truncate(limit);
    } else {
        assert(values@.take(values@.len() as int) =~= values@);
    }
    (values, has_more)
}

} // verus!
