//! What published occurrences and kept answers say.
use vstd::prelude::*;

use crate::habits::conduct::parts_belong;
use crate::habits::model::{
    HabitIdempotency, HabitOccurrence, HabitOccurrenceEvidence, HabitRepositoryError,
};
use crate::habits::publication::{
    evidence_fits, habit_target, policy_fits, policy_publishable, publication_refusal,
    ExistingEvidence, PlannedOccurrence, PublishedHabitPolicy, SeriesItemRow,
};
use crate::habits::receipts::{parts_agree, replay_answer, written_for, ReceiptRow, StoredReceipt};
use crate::habits::zones::PublishedHabitEvidenceError;
use crate::json::{Json, JsonNumber};
use crate::time::{Instant, Uuid};

verus! {

/// An instant without what lies below a microsecond.
pub open spec fn to_micros(value: Instant) -> int {
    value as int / 1_000 * 1_000
}

/// A part of the target of a habit.
pub open spec fn target_part(constraints: Json, key: Seq<char>) -> Option<Json> {
    if constraints.member("habit_target"@) is Some {
        constraints.member("habit_target"@)->0.member(key)
    } else {
        None
    }
}

/// A habit aims at an amount in a unit or at nothing: a target is taken exactly if it has
/// neither, or a positive amount that is not too great together with a unit that may be used.
pub proof fn targets_are_whole(constraints: Json, unit_valid: bool, maximum: i64)
    ensures
        ({
            let amount = target_part(constraints, "amount"@);
            let unit = target_part(constraints, "unit"@);
            let target = habit_target(constraints, unit_valid, maximum);
            &&& amount is None && unit is None ==> target == Ok::<
                (Option<i64>, Option<Seq<char>>),
                PublishedHabitEvidenceError,
            >((None, None))
            &&& amount is Some != unit is Some ==> target is Err
            &&& amount is Some && unit is Some ==> (target is Ok <==> unit->0 is Text
                && amount->0 is Number && amount->0->Number_0 is Unsigned && 1
                <= amount->0->Number_0->Unsigned_0 <= maximum && unit_valid)
            &&& amount is Some && unit is Some && target is Ok ==> target->Ok_0.0 is Some
                && amount->0 == Json::Number(JsonNumber::Unsigned(target->Ok_0.0->0 as u64))
                && target->Ok_0.1 == Some(unit->0->Text_0@)
            &&& target is Err ==> target->Err_0 == PublishedHabitEvidenceError::Invalid
        }),
{
}

/// The policy of a habit is published exactly if the habit is as the schedule knows it and
/// recurs, its target is whole, its duration is not negative, and its sensitivity is known.
/// Then the policy says what the habit says.
pub proof fn policies_say_what_the_habit_says(
    row: SeriesItemRow,
    planned: Option<u64>,
    sensitivity: Option<bool>,
    maximum: i64,
    policy: PublishedHabitPolicy,
)
    ensures
        policy_publishable(row, planned, sensitivity, maximum) <==> {
            &&& planned is Some && row.revision >= 0 && planned->0 == row.revision
            &&& row.has_recurrence
            &&& habit_target(row.constraints, row.unit_valid, maximum) is Ok
            &&& row.duration_seconds is None || row.duration_seconds->0 >= 0
            &&& sensitivity is Some
        },
        policy_publishable(row, planned, sensitivity, maximum) && policy_fits(
            row,
            sensitivity->0,
            maximum,
            policy,
        ) ==> {
            &&& policy.source_revision == row.revision
            &&& policy.fingerprint@ == crate::outside::sha256_of(row.policy_document@)
            &&& policy.timezone_name@ == row.timezone_name@
            &&& policy.expected_duration_seconds is Some == row.duration_seconds is Some
            &&& row.duration_seconds is Some ==> policy.expected_duration_seconds->0
                == row.duration_seconds->0
            &&& policy.is_sensitive == sensitivity->0
            &&& policy.expected_quantity is Some == policy.expected_unit is Some
            &&& policy.expected_quantity is Some ==> target_part(row.constraints, "amount"@)
                == Some(Json::Number(JsonNumber::Unsigned(policy.expected_quantity->0 as u64)))
        },
{
    targets_are_whole(row.constraints, row.unit_valid, maximum);
}

/// Whether an occurrence has a time of its own and a window, an identity that is not too long
/// and a time zone that is known.
pub open spec fn has_its_time(occurrence: PlannedOccurrence, policy: PublishedHabitPolicy) -> bool {
    &&& occurrence.identity_bytes <= 4_096
    &&& crate::outside::zone_known(policy.timezone_name@)
    &&& to_micros(occurrence.nominal_start) < to_micros(occurrence.nominal_end)
    &&& to_micros(occurrence.window_start) < to_micros(occurrence.window_end)
    &&& policy.expected_duration_seconds is Some ==> policy.expected_duration_seconds->0
        <= i64::MAX
}

/// An occurrence is published for the first time exactly if it has its time, lies within its
/// window, and its evidence satisfies the rules.
pub proof fn new_occurrences_lie_in_their_window(
    occurrence: PlannedOccurrence,
    policy: PublishedHabitPolicy,
    content_valid: bool,
)
    requires
        crate::habits::publication::planned_times(occurrence),
    ensures
        (publication_refusal(occurrence, policy, None, content_valid) is None) <==> {
            &&& has_its_time(occurrence, policy)
            &&& to_micros(occurrence.window_start) <= to_micros(occurrence.nominal_start)
            &&& to_micros(occurrence.nominal_end) <= to_micros(occurrence.window_end)
            &&& content_valid
            &&& policy.source_revision <= i64::MAX
        },
        publication_refusal(occurrence, policy, None, content_valid) is Some
            ==> publication_refusal(occurrence, policy, None, content_valid) == Some(
            PublishedHabitEvidenceError::Invalid,
        ),
{
}

/// The evidence of an occurrence that is published says what was planned, under the policy
/// that it was planned under.
pub proof fn evidence_says_what_was_planned(
    occurrence: PlannedOccurrence,
    policy: PublishedHabitPolicy,
    schedule: Uuid,
    id: Uuid,
    evidence: HabitOccurrenceEvidence,
)
    requires
        crate::habits::publication::planned_times(occurrence),
        evidence_fits(occurrence, policy, schedule, id, evidence),
    ensures
        evidence.id == id,
        evidence.source_schedule_revision_id == schedule,
        evidence.habit_id == occurrence.series_item_id,
        evidence.planner_occurrence_id == occurrence.id,
        evidence.source_item_revision == policy.source_revision,
        evidence.policy_fingerprint@ == crate::hashing::prefixed_text(policy.fingerprint@),
        crate::json::json_same(occurrence.identity, evidence.identity),
        evidence.nominal_start == to_micros(occurrence.nominal_start),
        evidence.nominal_end == to_micros(occurrence.nominal_end),
        evidence.window_start == to_micros(occurrence.window_start),
        evidence.window_end == to_micros(occurrence.window_end),
        occurrence.local_date is Some ==> evidence.local_date == occurrence.local_date->0,
        evidence.timezone_name@ == policy.timezone_name@,
        evidence.expected_duration_seconds == policy.expected_duration_seconds,
        evidence.expected_quantity == policy.expected_quantity,
        evidence.expected_unit is Some == policy.expected_unit is Some,
        evidence.expected_unit is Some ==> evidence.expected_unit->0@ == policy.expected_unit->0@,
{
}

/// Whether an occurrence was carried to the window in which it is published again.
pub open spec fn carried_to(existing: ExistingEvidence, occurrence: PlannedOccurrence) -> bool {
    &&& existing.missed_action is Some && existing.missed_action->0@ == "carry"@
    &&& existing.carry_start is Some && existing.carry_start->0 == to_micros(
        occurrence.window_start,
    )
    &&& existing.carry_end is Some && existing.carry_end->0 == to_micros(occurrence.window_end)
}

/// An occurrence is published again exactly as what it was before: at the same time, with the
/// same identity, date and expectations, under the same policy, and in the same window or the
/// one that it was carried to. Anything else contradicts what was published.
pub proof fn published_occurrences_do_not_change(
    occurrence: PlannedOccurrence,
    policy: PublishedHabitPolicy,
    existing: ExistingEvidence,
    content_valid: bool,
)
    requires
        crate::habits::publication::planned_times(occurrence),
        existing.content_valid,
        policy.source_revision <= i64::MAX,
        has_its_time(occurrence, policy),
    ensures
        (publication_refusal(occurrence, policy, Some(existing), content_valid) is None) <==> {
            let evidence = existing.evidence;
            &&& evidence.policy_fingerprint@ == crate::hashing::prefixed_text(policy.fingerprint@)
            &&& crate::json::json_same(occurrence.identity, evidence.identity)
            &&& evidence.nominal_start == to_micros(occurrence.nominal_start)
            &&& evidence.nominal_end == to_micros(occurrence.nominal_end)
            &&& evidence.local_date == crate::habits::publication::published_date(
                occurrence,
                policy,
            )
            &&& evidence.timezone_name@ == policy.timezone_name@
            &&& evidence.expected_duration_seconds == policy.expected_duration_seconds
            &&& evidence.expected_quantity == policy.expected_quantity
            &&& evidence.expected_unit is Some == policy.expected_unit is Some
            &&& evidence.expected_unit is Some ==> evidence.expected_unit->0@
                == policy.expected_unit->0@
            &&& (evidence.window_start == to_micros(occurrence.window_start) && evidence.window_end
                == to_micros(occurrence.window_end)) || carried_to(existing, occurrence)
        },
        publication_refusal(occurrence, policy, Some(existing), content_valid) is Some
            ==> publication_refusal(occurrence, policy, Some(existing), content_valid) == Some(
            PublishedHabitEvidenceError::Conflict,
        ),
{
}

/// The parts of an occurrence agree exactly if its decision is about it, and does not leave it
/// out for itself.
pub proof fn parts_agree_where_they_belong(occurrence: HabitOccurrence)
    ensures
        parts_agree(occurrence) == parts_belong(occurrence),
{
}

/// A kept answer can be given out again exactly if its content satisfies the rules, an
/// occurrence belongs together, and a pass holds no more than two hundred decisions, each
/// about an occurrence of its own. A pause always can.
pub proof fn kept_answers_are_sound(receipt: StoredReceipt, content_valid: bool)
    ensures
        match receipt {
            StoredReceipt::Occurrence(occurrence) => receipt.sound(content_valid) <==> content_valid
                && parts_belong(occurrence),
            StoredReceipt::Pause(_) => receipt.sound(content_valid),
            StoredReceipt::MissedResolution(_) => receipt.sound(content_valid) <==> content_valid,
            StoredReceipt::MissedReconcile(result) => receipt.sound(content_valid)
                <==> content_valid && result.resolutions@.len() <= 200 && forall|i: int, j: int|
                0 <= i < result.resolutions@.len() && 0 <= j < result.resolutions@.len() && i != j
                    ==> (#[trigger] result.resolutions@[i]).occurrence_evidence_id != (
                #[trigger] result.resolutions@[j]).occurrence_evidence_id,
        },
{
    match receipt {
        StoredReceipt::MissedReconcile(result) => {
            let made = result.resolutions@;
            if crate::habits::receipts::distinct_evidence(made) {
                assert forall|i: int, j: int|
                    0 <= i < made.len() && 0 <= j < made.len() && i != j implies (
                #[trigger] made[i]).occurrence_evidence_id != (
                #[trigger] made[j]).occurrence_evidence_id by {
                    if i < j {
                        assert(made[i].occurrence_evidence_id != made[j].occurrence_evidence_id);
                    } else {
                        assert(made[j].occurrence_evidence_id != made[i].occurrence_evidence_id);
                    }
                }
            }
        },
        _ => {},
    }
}

/// A request is answered from a kept answer exactly if that is the only one under its key and
/// was kept for the same request, in the same namespace; it is new exactly if nothing is kept.
pub proof fn answers_are_given_to_their_own_request(
    rows: Seq<ReceiptRow>,
    idempotency: HabitIdempotency,
)
    ensures
        replay_answer(rows, idempotency) == Ok::<Option<StoredReceipt>, HabitRepositoryError>(
            None,
        ) <==> rows.len() == 0,
        replay_answer(rows, idempotency) is Ok && rows.len() > 0 ==> {
            &&& rows.len() == 1
            &&& rows[0].namespace@ == idempotency.namespace@
            &&& rows[0].key_hash@ == idempotency.key_hash@
            &&& rows[0].request_fingerprint@ == idempotency.request_fingerprint@
            &&& rows[0].receipt is Some
            &&& replay_answer(rows, idempotency)->Ok_0 == rows[0].receipt
        },
        rows.len() == 1 && (rows[0].namespace@ != idempotency.namespace@ || rows[0].key_hash@
            != idempotency.key_hash@ || rows[0].request_fingerprint@
            != idempotency.request_fingerprint@) ==> replay_answer(rows, idempotency) == Err::<
            Option<StoredReceipt>,
            HabitRepositoryError,
        >(HabitRepositoryError::IdempotencyConflict),
        rows.len() == 1 && written_for(rows[0], idempotency) && rows[0].receipt is None
            ==> replay_answer(rows, idempotency) == Err::<
            Option<StoredReceipt>,
            HabitRepositoryError,
        >(HabitRepositoryError::Internal),
{
}

/// An occurrence that has no time of its own is refused, whatever was published of it before.
pub proof fn occurrences_without_a_time_are_refused(
    occurrence: PlannedOccurrence,
    policy: PublishedHabitPolicy,
    existing: Option<ExistingEvidence>,
    content_valid: bool,
)
    requires
        crate::habits::publication::planned_times(occurrence),
        !has_its_time(occurrence, policy) || (existing is Some && !existing->0.content_valid),
    ensures
        publication_refusal(occurrence, policy, existing, content_valid) == Some(
            PublishedHabitEvidenceError::Invalid,
        ),
{
}

} // verus!
