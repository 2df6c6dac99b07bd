//! Evidence of occurrences that a schedule publishes.
use std::collections::BTreeMap;

use vstd::prelude::*;

use crate::habits::model::{HabitOccurrenceEvidence, OccurrenceState};
use crate::habits::names::occurrence_state_name;
use crate::habits::zones::{
    occurrence_local_date, offset_to_chrono, PublishedHabitEvidenceError,
};
use crate::hashing::{encoded_hash, hash_bytes};
use crate::ids::insert_id;
use crate::json::Json;
use crate::numbers::signed;
use crate::text::{same_optional_text, same_text};
use crate::time::{CalendarDate, Instant, Uuid};

verus! {

/// How many bytes the identity of an occurrence may have.
pub const MAX_RECURRENCE_IDENTITY_BYTES: usize = 4_096;

/// An occurrence as the planner gives it.
#[derive(Debug)]
pub struct PlannedOccurrence {
    pub id: Uuid,
    pub series_item_id: Uuid,
    pub identity: Json,
    /// How many bytes the identity has when it is written out.
    pub identity_bytes: usize,
    pub nominal_start: Instant,
    pub nominal_end: Instant,
    pub window_start: Instant,
    pub window_end: Instant,
    pub local_date: Option<CalendarDate>,
    pub state: OccurrenceState,
}

/// Whether the planner can represent the times of an occurrence.
pub open spec fn planned_times(occurrence: PlannedOccurrence) -> bool {
    &&& crate::habits::zones::planner_instant(occurrence.nominal_start)
    &&& crate::habits::zones::planner_instant(occurrence.nominal_end)
    &&& crate::habits::zones::planner_instant(occurrence.window_start)
    &&& crate::habits::zones::planner_instant(occurrence.window_end)
}

/// The policy of a habit under which its occurrences are published.
#[derive(Debug)]
pub struct PublishedHabitPolicy {
    pub source_revision: u64,
    pub fingerprint: [u8; 32],
    pub timezone_name: String,
    pub expected_duration_seconds: Option<u64>,
    pub expected_quantity: Option<i64>,
    pub expected_unit: Option<String>,
    pub is_sensitive: bool,
}

/// The item behind a series, as it is stored.
#[derive(Debug)]
pub struct SeriesItemRow {
    pub kind: String,
    pub revision: i64,
    pub has_recurrence: bool,
    pub timezone_name: String,
    pub constraints: Json,
    pub duration_seconds: Option<i32>,
    /// The policy of the habit, as a document.
    pub policy_document: Vec<u8>,
    /// Whether the unit of the target, if there is one, satisfies the rules for units.
    pub unit_valid: bool,
}

/// The amount that a habit aims at.
pub open spec fn target_amount(constraints: Json) -> Option<Json> {
    match constraints.member("habit_target"@) {
        Some(target) => target.member("amount"@),
        None => None,
    }
}

/// The unit in which a habit counts.
pub open spec fn target_unit(constraints: Json) -> Option<Json> {
    match constraints.member("habit_target"@) {
        Some(target) => target.member("unit"@),
        None => None,
    }
}

/// The amount and the unit that a habit aims at: both, or neither.
pub open spec fn habit_target(constraints: Json, unit_valid: bool, maximum: i64) -> Result<
    (Option<i64>, Option<Seq<char>>),
    PublishedHabitEvidenceError,
> {
    match (target_amount(constraints), target_unit(constraints)) {
        (None, None) => Ok((None, None)),
        (Some(Json::Number(crate::json::JsonNumber::Unsigned(amount))), Some(Json::Text(unit))) => {
            if 1 <= amount <= maximum && unit_valid {
                Ok((Some(amount as i64), Some(unit@)))
            } else {
                Err(PublishedHabitEvidenceError::Invalid)
            }
        },
        _ => Err(PublishedHabitEvidenceError::Invalid),
    }
}

/// The amount and the unit that a habit aims at. `maximum` is the greatest amount.
pub fn published_target(constraints: &Json, unit_valid: bool, maximum: i64) -> (result: Result<
    (Option<i64>, Option<String>),
    PublishedHabitEvidenceError,
>)
    ensures
        match habit_target(*constraints, unit_valid, maximum) {
            Ok((amount, unit)) => result is Ok && result->Ok_0.0 == amount
                && crate::text::optional_text(result->Ok_0.1) == unit,
            Err(error) => result == Err::<
                (Option<i64>, Option<String>),
                PublishedHabitEvidenceError,
            >(error),
        },
{
    let target: Option<&Json> = constraints.get("habit_target");
    let amount: Option<&Json> = match target {
        Some(value) => value.get("amount"),
        None => None,
    };
    let unit: Option<&Json> = match target {
        Some(value) => value.get("unit"),
        None => None,
    };
    match (amount, unit) {
        (None, None) => Ok((None, None)),
        (Some(number), Some(text)) => {
            let count: u64 = match number.as_u64() {
                Some(count) => count,
                None => {
                    return Err(PublishedHabitEvidenceError::Invalid);
                },
            };
            let count: i64 = match signed(count) {
                Some(count) => count,
                None => {
                    return Err(PublishedHabitEvidenceError::Invalid);
                },
            };
            if count < 1 || count > maximum {
                return Err(PublishedHabitEvidenceError::Invalid);
            }
            match text {
                Json::Text(name) => if unit_valid {
                    Ok((Some(count), Some(name.clone())))
                } else {
                    Err(PublishedHabitEvidenceError::Invalid)
                },
                _ => Err(PublishedHabitEvidenceError::Invalid),
            }
        },
        _ => Err(PublishedHabitEvidenceError::Invalid),
    }
}

/// Whether the items of a schedule are as they were when it was made, for one item.
pub open spec fn source_matches(row: SeriesItemRow, planned_revision: Option<u64>) -> bool {
    row.revision >= 0 && planned_revision is Some && planned_revision->0 == row.revision
}

/// Whether `policy` is the policy of a habit.
pub open spec fn policy_fits(
    row: SeriesItemRow,
    is_sensitive: bool,
    maximum: i64,
    policy: PublishedHabitPolicy,
) -> bool {
    let target = habit_target(row.constraints, row.unit_valid, maximum)->Ok_0;
    &&& policy.source_revision == row.revision
    &&& policy.fingerprint@ == crate::outside::sha256_of(row.policy_document@)
    &&& policy.timezone_name == row.timezone_name
    &&& match (policy.expected_duration_seconds, row.duration_seconds) {
        (Some(seconds), Some(stored)) => seconds == stored,
        (None, None) => true,
        _ => false,
    }
    &&& policy.expected_quantity == target.0
    &&& crate::text::optional_text(policy.expected_unit) == target.1
    &&& policy.is_sensitive == is_sensitive
}

/// Whether the policy of a habit can be published.
pub open spec fn policy_publishable(
    row: SeriesItemRow,
    planned_revision: Option<u64>,
    sensitivity: Option<bool>,
    maximum: i64,
) -> bool {
    &&& source_matches(row, planned_revision)
    &&& row.has_recurrence
    &&& habit_target(row.constraints, row.unit_valid, maximum) is Ok
    &&& row.duration_seconds is Some ==> row.duration_seconds->0 >= 0
    &&& sensitivity is Some
}

/// The policy of an item under which its occurrences are published, if the item is a
/// habit. `planned_revision` and `sensitivity` are what the schedule knows of the item;
/// `maximum` is the greatest amount that a habit may aim at.
pub fn published_policy(
    row: SeriesItemRow,
    planned_revision: Option<u64>,
    sensitivity: Option<bool>,
    maximum: i64,
) -> (result: Result<Option<PublishedHabitPolicy>, PublishedHabitEvidenceError>)
    ensures
        match result {
            Ok(None) => row.kind@ != "habit"@,
            Ok(Some(policy)) => {
                &&& row.kind@ == "habit"@
                &&& policy_publishable(row, planned_revision, sensitivity, maximum)
                &&& policy_fits(row, sensitivity->0, maximum, policy)
            },
            Err(error) => {
                &&& error == PublishedHabitEvidenceError::Invalid
                &&& row.kind@ == "habit"@
                &&& !policy_publishable(row, planned_revision, sensitivity, maximum)
            },
        },
{
    if !same_text(row.kind.as_str(), "habit") {
        return Ok(None);
    }
    if row.revision < 0 {
        return Err(PublishedHabitEvidenceError::Invalid);
    }
    let source_revision: u64 = row.revision as u64;
    match planned_revision {
        Some(planned) => {
            if planned != source_revision {
                return Err(PublishedHabitEvidenceError::Invalid);
            }
        },
        None => {
            return Err(PublishedHabitEvidenceError::Invalid);
        },
    }
    if !row.has_recurrence {
        return Err(PublishedHabitEvidenceError::Invalid);
    }
    let (expected_quantity, expected_unit) = published_target(
        &row.constraints,
        row.unit_valid,
        maximum,
    )?;
    let expected_duration_seconds: Option<u64> = match row.duration_seconds {
        Some(seconds) => {
            if seconds < 0 {
                return Err(PublishedHabitEvidenceError::Invalid);
            }
            Some(seconds as u64)
        },
        None => None,
    };
    let is_sensitive: bool = match sensitivity {
        Some(is_sensitive) => is_sensitive,
        None => {
            return Err(PublishedHabitEvidenceError::Invalid);
        },
    };
    let fingerprint: [u8; 32] = hash_bytes(&row.policy_document);
    Ok(
        Some(
            PublishedHabitPolicy {
                source_revision,
                fingerprint,
                timezone_name: row.timezone_name,
                expected_duration_seconds,
                expected_quantity,
                expected_unit,
                is_sensitive,
            },
        ),
    )
}

/// The series that a schedule has occurrences of, each once and in order.
pub fn published_series(occurrences: &Vec<PlannedOccurrence>) -> (result: Vec<Uuid>)
    ensures
        crate::ids::increasing(result@),
        forall|id: Uuid| #[trigger]
            result@.contains(id) <==> exists|k: int|
                0 <= k < occurrences@.len() && (#[trigger] occurrences@[k]).series_item_id == id,
{
    let mut ids: Vec<Uuid> = Vec::new();
    let mut i: usize = 0;
    while i < occurrences.len()
        invariant
            i <= occurrences@.len(),
            crate::ids::increasing(ids@),
            forall|id: Uuid| #[trigger]
                ids@.contains(id) <==> exists|k: int|
                    0 <= k < i && (#[trigger] occurrences@[k]).series_item_id == id,
        decreases occurrences.len() - i,
    {
        insert_id(&mut ids, occurrences[i].series_item_id);
        assert(occurrences@[i as int].series_item_id == occurrences@[i as int].series_item_id);
        i = i + 1;
    }
    ids
}

/// What a schedule knows of an item.
pub open spec fn known<V>(facts: Map<Uuid, V>, id: Uuid) -> Option<V> {
    if facts.contains_key(id) {
        Some(facts[id])
    } else {
        None
    }
}

/// Whether the policy of a row can be published, if it is that of a habit.
pub open spec fn row_publishable(
    row: (Uuid, SeriesItemRow),
    revisions: Map<Uuid, u64>,
    sensitivity: Map<Uuid, bool>,
    maximum: i64,
) -> bool {
    row.1.kind@ == "habit"@ ==> policy_publishable(
        row.1,
        known(revisions, row.0),
        known(sensitivity, row.0),
        maximum,
    )
}

/// Whether a policy is that of a row.
pub open spec fn row_gives(
    row: (Uuid, SeriesItemRow),
    id: Uuid,
    sensitivity: Map<Uuid, bool>,
    maximum: i64,
    policy: PublishedHabitPolicy,
) -> bool {
    row.0 == id && row.1.kind@ == "habit"@ && policy_fits(
        row.1,
        sensitivity[id],
        maximum,
        policy,
    )
}

/// The policies of the habits among the items of a schedule. `revisions` and `sensitivity`
/// are what the schedule knows of its items.
#[verifier::loop_isolation(false)]
pub fn published_policies(
    rows: Vec<(Uuid, SeriesItemRow)>,
    revisions: &BTreeMap<Uuid, u64>,
    sensitivity: &BTreeMap<Uuid, bool>,
    maximum: i64,
) -> (result: Result<BTreeMap<Uuid, PublishedHabitPolicy>, PublishedHabitEvidenceError>)
    ensures
        match result {
            Ok(policies) => {
                &&& forall|k: int|
                    0 <= k < rows@.len() ==> row_publishable(
                        #[trigger] rows@[k],
                        revisions@,
                        sensitivity@,
                        maximum,
                    )
                &&& forall|k: int|
                    0 <= k < rows@.len() && (#[trigger] rows@[k]).1.kind@ == "habit"@
                        ==> policies@.contains_key(rows@[k].0)
                &&& forall|id: Uuid| #[trigger]
                    policies@.contains_key(id) ==> exists|k: int|
                        0 <= k < rows@.len() && row_gives(
                            #[trigger] rows@[k],
                            id,
                            sensitivity@,
                            maximum,
                            policies@[id],
                        )
            },
            Err(error) => error == PublishedHabitEvidenceError::Invalid && exists|k: int|
                0 <= k < rows@.len() && !row_publishable(
                    #[trigger] rows@[k],
                    revisions@,
                    sensitivity@,
                    maximum,
                ),
        },
{
    let ghost all = rows@;
    let count: usize = rows.len();
    let mut remaining: Vec<(Uuid, SeriesItemRow)> = rows;
    let mut policies: BTreeMap<Uuid, PublishedHabitPolicy> = BTreeMap::new();
    let mut i: usize = 0;
    while i < count
        invariant
            i <= count,
            count == all.len(),
            rows@ == all,
            remaining@ == all.skip(i as int),
            forall|k: int|
                0 <= k < i ==> row_publishable(
                    #[trigger] all[k],
                    revisions@,
                    sensitivity@,
                    maximum,
                ),
            forall|k: int|
                0 <= k < i && (#[trigger] all[k]).1.kind@ == "habit"@ ==> policies@.contains_key(
                    all[k].0,
                ),
            forall|id: Uuid| #[trigger]
                policies@.contains_key(id) ==> exists|k: int|
                    0 <= k < i && row_gives(
                        #[trigger] all[k],
                        id,
                        sensitivity@,
                        maximum,
                        policies@[id],
                    ),
        decreases count - i,
    {
        let (id, row) = remaining.remove(0);
        assert(all[i as int] == (id, row));
        assert(remaining@ =~= all.skip(i + 1));
        let revision: Option<u64> = match revisions.get(&id) {
            Some(revision) => Some(*revision),
            None => None,
        };
        let sensitive: Option<bool> = match sensitivity.get(&id) {
            Some(sensitive) => Some(*sensitive),
            None => None,
        };
        match published_policy(row, revision, sensitive, maximum) {
            Ok(Some(policy)) => {
                let ghost before = policies@;
                policies.insert(id, policy);
                proof {
                    assert(row_gives(all[i as int], id, sensitivity@, maximum, policy));
                    assert forall|x: Uuid| #[trigger] policies@.contains_key(x) implies exists|
                        k: int,
                    |
                        0 <= k < i + 1 && row_gives(
                            #[trigger] all[k],
                            x,
                            sensitivity@,
                            maximum,
                            policies@[x],
                        ) by {
                        if x != id {
                            assert(before.contains_key(x));
                        }
                    }
                }
            },
            Ok(None) => {},
            Err(error) => {
                assert(!row_publishable(all[i as int], revisions@, sensitivity@, maximum));
                return Err(error);
            },
        }
        i = i + 1;
    }
    Ok(policies)
}

/// Whether the targets of reductions have to be looked up: not for a habit that is not
/// active, nor for no occurrences.
pub fn looks_for_reduction_targets(
    current_item_is_active: bool,
    planner_occurrence_ids: &Vec<Uuid>,
) -> (result: bool)
    ensures
        result == (current_item_is_active && planner_occurrence_ids@.len() > 0),
{
    current_item_is_active && planner_occurrence_ids.len() > 0
}

/// What was published of an occurrence before, and what was decided about it since.
#[derive(Debug)]
pub struct ExistingEvidence {
    pub evidence: HabitOccurrenceEvidence,
    /// Whether the evidence satisfies the rules for evidence.
    pub content_valid: bool,
    pub missed_action: Option<String>,
    pub carry_start: Option<Instant>,
    pub carry_end: Option<Instant>,
}

/// What publishing an occurrence writes: new evidence, or only that the occurrence is
/// part of another schedule.
#[derive(Debug)]
pub enum PublicationStep {
    Insert(HabitOccurrenceEvidence),
    Known(Uuid),
}

/// The instant as it is stored.
pub open spec fn kept(value: Instant) -> Instant {
    crate::time::stored_instant(value) as Instant
}

/// The local date of an occurrence.
pub open spec fn published_date(
    occurrence: PlannedOccurrence,
    policy: PublishedHabitPolicy,
) -> CalendarDate {
    match occurrence.local_date {
        Some(date) => date,
        None => crate::habits::zones::local_date(
            kept(occurrence.nominal_start),
            policy.timezone_name@,
        ),
    }
}

/// Whether an occurrence can be published at all: its identity is not too long, its time
/// zone is known and its times are in order.
pub open spec fn occurrence_publishable(
    occurrence: PlannedOccurrence,
    policy: PublishedHabitPolicy,
) -> bool {
    &&& occurrence.identity_bytes <= MAX_RECURRENCE_IDENTITY_BYTES
    &&& crate::outside::zone_known(policy.timezone_name@)
    &&& kept(occurrence.nominal_start) < kept(occurrence.nominal_end)
    &&& kept(occurrence.window_start) < kept(occurrence.window_end)
    &&& policy.expected_duration_seconds is Some ==> policy.expected_duration_seconds->0
        <= i64::MAX
}

/// Whether a new occurrence lies within its window.
pub open spec fn within_window(occurrence: PlannedOccurrence) -> bool {
    kept(occurrence.window_start) <= kept(occurrence.nominal_start) && kept(
        occurrence.nominal_end,
    ) <= kept(occurrence.window_end)
}

/// Whether `evidence` is the evidence of an occurrence that is published first.
pub open spec fn evidence_fits(
    occurrence: PlannedOccurrence,
    policy: PublishedHabitPolicy,
    schedule_revision_id: Uuid,
    evidence_id: Uuid,
    evidence: HabitOccurrenceEvidence,
) -> bool {
    &&& evidence.id == evidence_id
    &&& evidence.habit_id == occurrence.series_item_id
    &&& evidence.planner_occurrence_id == occurrence.id
    &&& evidence.source_schedule_revision_id == schedule_revision_id
    &&& evidence.source_item_revision == policy.source_revision
    &&& evidence.policy_fingerprint@ == crate::hashing::prefixed_text(policy.fingerprint@)
    &&& crate::json::json_same(occurrence.identity, evidence.identity)
    &&& evidence.nominal_start == kept(occurrence.nominal_start)
    &&& evidence.nominal_end == kept(occurrence.nominal_end)
    &&& evidence.window_start == kept(occurrence.window_start)
    &&& evidence.window_end == kept(occurrence.window_end)
    &&& evidence.local_date == published_date(occurrence, policy)
    &&& evidence.timezone_name@ == policy.timezone_name@
    &&& evidence.expected_duration_seconds == policy.expected_duration_seconds
    &&& evidence.expected_quantity == policy.expected_quantity
    &&& crate::text::optional_text(evidence.expected_unit) == crate::text::optional_text(
        policy.expected_unit,
    )
}

/// Whether an occurrence is published again as what it was published before, its window
/// aside.
pub open spec fn content_matches(
    occurrence: PlannedOccurrence,
    policy: PublishedHabitPolicy,
    evidence: HabitOccurrenceEvidence,
) -> bool {
    &&& evidence.policy_fingerprint@ == crate::hashing::prefixed_text(policy.fingerprint@)
    &&& crate::json::json_same(occurrence.identity, evidence.identity)
    &&& evidence.nominal_start == kept(occurrence.nominal_start)
    &&& evidence.nominal_end == kept(occurrence.nominal_end)
    &&& evidence.local_date == published_date(occurrence, policy)
    &&& evidence.timezone_name@ == policy.timezone_name@
    &&& evidence.expected_duration_seconds == policy.expected_duration_seconds
    &&& evidence.expected_quantity == policy.expected_quantity
    &&& crate::text::optional_text(evidence.expected_unit) == crate::text::optional_text(
        policy.expected_unit,
    )
}

/// Whether an occurrence is published again in its window, or in the window that it was
/// carried to.
pub open spec fn window_accepted(
    occurrence: PlannedOccurrence,
    existing: ExistingEvidence,
) -> bool {
    let start = kept(occurrence.window_start);
    let end = kept(occurrence.window_end);
    ||| existing.evidence.window_start == start && existing.evidence.window_end == end
    ||| {
        &&& crate::text::optional_text(existing.missed_action) == Some("carry"@)
        &&& existing.carry_start == Some(start)
        &&& existing.carry_end == Some(end)
    }
}

/// Why publishing an occurrence is refused. `existing` is what was published of it
/// before; `content_valid` says whether new evidence satisfies the rules for evidence.
pub open spec fn publication_refusal(
    occurrence: PlannedOccurrence,
    policy: PublishedHabitPolicy,
    existing: Option<ExistingEvidence>,
    content_valid: bool,
) -> Option<PublishedHabitEvidenceError> {
    if !occurrence_publishable(occurrence, policy) {
        Some(PublishedHabitEvidenceError::Invalid)
    } else {
        match existing {
            None => if !within_window(occurrence) || !content_valid || policy.source_revision
                > i64::MAX {
                Some(PublishedHabitEvidenceError::Invalid)
            } else {
                None
            },
            Some(known) => if !known.content_valid {
                Some(PublishedHabitEvidenceError::Invalid)
            } else if !content_matches(occurrence, policy, known.evidence) || !window_accepted(
                occurrence,
                known,
            ) {
                Some(PublishedHabitEvidenceError::Conflict)
            } else if policy.source_revision > i64::MAX {
                Some(PublishedHabitEvidenceError::Invalid)
            } else {
                None
            },
        }
    }
}

/// What publishing an occurrence writes.
///
/// `existing` is what was published of it before. `evidence_id` is the identifier of new
/// evidence, and `content_valid` says whether that evidence satisfies the rules for
/// evidence.
pub fn insert_published_occurrence(
    schedule_revision_id: Uuid,
    evidence_id: Uuid,
    occurrence: &PlannedOccurrence,
    policy: &PublishedHabitPolicy,
    existing: Option<&ExistingEvidence>,
    content_valid: bool,
) -> (result: Result<PublicationStep, PublishedHabitEvidenceError>)
    requires
        planned_times(*occurrence),
    ensures
        ({
            let known = match existing {
                Some(value) => Some(*value),
                None => None::<ExistingEvidence>,
            };
            match publication_refusal(*occurrence, *policy, known, content_valid) {
                Some(error) => result == Err::<PublicationStep, PublishedHabitEvidenceError>(error),
                None => match known {
                    None => result is Ok && result->Ok_0 is Insert && evidence_fits(
                        *occurrence,
                        *policy,
                        schedule_revision_id,
                        evidence_id,
                        result->Ok_0->Insert_0,
                    ),
                    Some(value) => result == Ok::<PublicationStep, PublishedHabitEvidenceError>(
                        PublicationStep::Known(value.evidence.id),
                    ),
                },
            }
        }),
{
    if occurrence.identity_bytes > MAX_RECURRENCE_IDENTITY_BYTES {
        return Err(PublishedHabitEvidenceError::Invalid);
    }
    let nominal_start: Instant = offset_to_chrono(occurrence.nominal_start)?;
    let nominal_end: Instant = offset_to_chrono(occurrence.nominal_end)?;
    let window_start: Instant = offset_to_chrono(occurrence.window_start)?;
    let window_end: Instant = offset_to_chrono(occurrence.window_end)?;
    let local_date: CalendarDate = occurrence_local_date(
        occurrence.local_date,
        nominal_start,
        policy.timezone_name.as_str(),
    )?;
    if nominal_end <= nominal_start || window_end <= window_start {
        return Err(PublishedHabitEvidenceError::Invalid);
    }
    match policy.expected_duration_seconds {
        Some(seconds) => {
            if seconds > i64::MAX as u64 {
                return Err(PublishedHabitEvidenceError::Invalid);
            }
        },
        None => {},
    }
    assert(occurrence_publishable(*occurrence, *policy));
    let fingerprint: String = encoded_hash(policy.fingerprint);
    match existing {
        None => {
            if nominal_start < window_start || nominal_end > window_end {
                return Err(PublishedHabitEvidenceError::Invalid);
            }
            if !content_valid {
                return Err(PublishedHabitEvidenceError::Invalid);
            }
            if policy.source_revision > i64::MAX as u64 {
                return Err(PublishedHabitEvidenceError::Invalid);
            }
            let identity: Json = occurrence.identity.clone();
            let expected_unit: Option<String> = match &policy.expected_unit {
                Some(unit) => Some(unit.clone()),
                None => None,
            };
            Ok(
                PublicationStep::Insert(
                    HabitOccurrenceEvidence {
                        id: evidence_id,
                        habit_id: occurrence.series_item_id,
                        planner_occurrence_id: occurrence.id,
                        source_schedule_revision_id: schedule_revision_id,
                        source_item_revision: policy.source_revision,
                        policy_fingerprint: fingerprint,
                        identity,
                        nominal_start,
                        nominal_end,
                        window_start,
                        window_end,
                        local_date,
                        timezone_name: policy.timezone_name.clone(),
                        expected_duration_seconds: policy.expected_duration_seconds,
                        expected_quantity: policy.expected_quantity,
                        expected_unit,
                    },
                ),
            )
        },
        Some(known) => {
            if !known.content_valid {
                return Err(PublishedHabitEvidenceError::Invalid);
            }
            let evidence: &HabitOccurrenceEvidence = &known.evidence;
            let base_matches: bool = same_text(
                evidence.policy_fingerprint.as_str(),
                fingerprint.as_str(),
            ) && occurrence.identity.same(&evidence.identity) && evidence.nominal_start
                == nominal_start && evidence.nominal_end == nominal_end && evidence.local_date
                == local_date && same_text(
                evidence.timezone_name.as_str(),
                policy.timezone_name.as_str(),
            ) && evidence.expected_duration_seconds == policy.expected_duration_seconds
                && evidence.expected_quantity == policy.expected_quantity && same_optional_text(
                &evidence.expected_unit,
                &policy.expected_unit,
            );
            let window_matches: bool = evidence.window_start == window_start && evidence.window_end
                == window_end;
            let carries: bool = match &known.missed_action {
                Some(action) => same_text(action.as_str(), "carry"),
                None => false,
            };
            let authorized_carry: bool = carries && known.carry_start == Some(window_start)
                && known.carry_end == Some(window_end);
            if !base_matches || (!window_matches && !authorized_carry) {
                return Err(PublishedHabitEvidenceError::Conflict);
            }
            if policy.source_revision > i64::MAX as u64 {
                return Err(PublishedHabitEvidenceError::Invalid);
            }
            Ok(PublicationStep::Known(evidence.id))
        },
    }
}

/// What publishing an occurrence of a schedule writes: nothing where its series is no
/// habit, and otherwise what publishing it under the policy of its habit writes.
pub fn record_published_habit_occurrence(
    schedule_revision_id: Uuid,
    evidence_id: Uuid,
    occurrence: &PlannedOccurrence,
    policies: &BTreeMap<Uuid, PublishedHabitPolicy>,
    existing: Option<&ExistingEvidence>,
    content_valid: bool,
) -> (result: Result<Option<PublicationStep>, PublishedHabitEvidenceError>)
    requires
        planned_times(*occurrence),
    ensures
        if policies@.contains_key(occurrence.series_item_id) {
            let policy = policies@[occurrence.series_item_id];
            let known = match existing {
                Some(value) => Some(*value),
                None => None::<ExistingEvidence>,
            };
            match publication_refusal(*occurrence, policy, known, content_valid) {
                Some(error) => result == Err::<
                    Option<PublicationStep>,
                    PublishedHabitEvidenceError,
                >(error),
                None => match known {
                    None => result is Ok && result->Ok_0 is Some && result->Ok_0->0 is Insert
                        && evidence_fits(
                        *occurrence,
                        policy,
                        schedule_revision_id,
                        evidence_id,
                        result->Ok_0->0->Insert_0,
                    ),
                    Some(value) => result == Ok::<
                        Option<PublicationStep>,
                        PublishedHabitEvidenceError,
                    >(Some(PublicationStep::Known(value.evidence.id))),
                },
            }
        } else {
            result == Ok::<Option<PublicationStep>, PublishedHabitEvidenceError>(None)
        },
{
    match policies.get(&occurrence.series_item_id) {
        None => Ok(None),
        Some(policy) => {
            match insert_published_occurrence(
                schedule_revision_id,
                evidence_id,
                occurrence,
                policy,
                existing,
                content_valid,
            ) {
                Ok(step) => Ok(Some(step)),
                Err(error) => Err(error),
            }
        },
    }
}

/// That an occurrence is part of a schedule, as it is stored.
#[derive(Debug)]
pub struct PublicationRow {
    pub item_revision: i64,
    pub occurrence_state: String,
}

/// Whether a row tells of an occurrence in a state, at a revision of its item.
pub open spec fn publication_tells(
    row: PublicationRow,
    item_revision: u64,
    state: OccurrenceState,
) -> bool {
    row.item_revision == item_revision && row.occurrence_state@
        == crate::habits::names::occurrence_state_text(state)
}

/// Records that an occurrence is part of a schedule: the row that is written where there
/// is none, and nothing where `stored` says the same already.
pub fn record_occurrence_publication(
    stored: &Option<PublicationRow>,
    item_revision: u64,
    state: OccurrenceState,
) -> (result: Result<Option<PublicationRow>, PublishedHabitEvidenceError>)
    ensures
        if item_revision > i64::MAX {
            result == Err::<Option<PublicationRow>, PublishedHabitEvidenceError>(
                PublishedHabitEvidenceError::Invalid,
            )
        } else {
            match *stored {
                None => result is Ok && result->Ok_0 is Some && publication_tells(
                    result->Ok_0->0,
                    item_revision,
                    state,
                ),
                Some(row) => result == (if publication_tells(row, item_revision, state) {
                    Ok::<Option<PublicationRow>, PublishedHabitEvidenceError>(None)
                } else {
                    Err(PublishedHabitEvidenceError::Conflict)
                }),
            }
        },
{
    let revision: i64 = match signed(item_revision) {
        Some(revision) => revision,
        None => {
            return Err(PublishedHabitEvidenceError::Invalid);
        },
    };
    let name: &str = occurrence_state_name(state);
    match stored {
        None => Ok(
            Some(PublicationRow { item_revision: revision, occurrence_state: name.to_string() }),
        ),
        Some(row) => if row.item_revision == revision && same_text(
            row.occurrence_state.as_str(),
            name,
        ) {
            Ok(None)
        } else {
            Err(PublishedHabitEvidenceError::Conflict)
        },
    }
}

/// Publishing the same occurrence again changes nothing: the evidence that was written
/// the first time is recognised.
pub proof fn publication_is_idempotent(
    occurrence: PlannedOccurrence,
    policy: PublishedHabitPolicy,
    schedule_revision_id: Uuid,
    evidence_id: Uuid,
    evidence: HabitOccurrenceEvidence,
    existing: ExistingEvidence,
)
    requires
        publication_refusal(occurrence, policy, None, true) is None,
        evidence_fits(occurrence, policy, schedule_revision_id, evidence_id, evidence),
        existing.evidence == evidence,
        existing.content_valid,
    ensures
        publication_refusal(occurrence, policy, Some(existing), true) is None,
{
}

/// A schedule holds an occurrence in one state and at one revision of its item: once that
/// is recorded, nothing else is recorded for it.
pub proof fn publication_is_recorded_in_one_state(
    row: PublicationRow,
    item_revision: u64,
    state: OccurrenceState,
    other_revision: u64,
    other_state: OccurrenceState,
)
    requires
        publication_tells(row, item_revision, state),
    ensures
        publication_tells(row, other_revision, other_state) <==> other_revision == item_revision
            && other_state == state,
{
    if publication_tells(row, other_revision, other_state) {
        crate::habits::names::occurrence_state_text_is_injective(state, other_state);
    }
}

} // verus!
