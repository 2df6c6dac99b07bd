use std::collections::BTreeMap;

use dayweave_api::habits::missed::{
    advance_resolution, explicit_policy, missed_resume_action, new_resolution, reduction_action,
    restore_policy, transition_allowed,
};
use dayweave_api::habits::model::{
    from_i64, to_i64, HabitDeltaChange, HabitIdempotency, HabitMissedCancellationReason,
    HabitMissedConfiguration, HabitMissedExplicitAction, HabitMissedPolicy,
    HabitMissedResolutionAction, HabitMissedResumeAction, HabitOccurrence,
    HabitOccurrenceEvidence, HabitOutcome, HabitOutcomeInput, HabitOutcomeStatus, HabitPause,
    HabitRepositoryError, OccurrenceState, OutcomeWrite, PauseCreate, PauseResume,
};
use dayweave_api::habits::names::{
    missed_action_columns, missed_cancellation_reason_name, missed_policy_name,
    missed_resume_action_name, outcome_status_name, parse_missed_action,
    parse_missed_cancellation_reason, parse_missed_policy, parse_missed_resume_action,
    parse_outcome_status,
};
use dayweave_api::habits::outcomes::{
    delta, habit_deduplication_key, list_occurrences, page_fetch_limit, put_outcome,
    require_active_habit, HabitChangeRow, HabitItemRow, OutcomeStep,
};
use dayweave_api::habits::pauses::{
    create_pause, is_paused, preserves_streak, resume_pause, PauseStep,
};
use dayweave_api::habits::publication::{
    insert_published_occurrence, looks_for_reduction_targets, published_policies, published_policy,
    published_series, published_target, record_published_habit_occurrence, ExistingEvidence,
    PlannedOccurrence, PublicationStep,
    SeriesItemRow,
};
use dayweave_api::habits::receipts::{
    admit_ephemeral_receipt, evicts_ephemeral_receipt, replay_receipt, ReceiptRow, StoredReceipt,
};
use dayweave_api::habits::reconcile::{
    begin_reconcile, child_operation_id, configuration_of, ReconcileStart,
};
use dayweave_api::habits::recurrence::authoritative_habit_recurrence;
use dayweave_api::habits::rows::{outcome_from_row, outcome_row, pause_from_row, stored_pause};
use dayweave_api::habits::zones::{
    chrono_to_offset, chrono_to_offset_in_timezone, occurrence_local_date, offset_to_chrono,
    PublishedHabitEvidenceError, CALENDAR_FIRST_MICROSECOND, CALENDAR_LAST_MICROSECOND,
    PLANNER_FIRST_MICROSECOND, PLANNER_LAST_MICROSECOND,
};
use dayweave_api::json::{Json, JsonNumber};
use dayweave_api::time::{CalendarDate, Instant, HOUR, MINUTE};

const NOON: Instant = 1_788_523_200_000_000_000;

const DAY: Instant = 24 * HOUR;

fn at(value: chrono::DateTime<chrono::Utc>) -> Instant {
    value.timestamp() as i128 * 1_000_000_000 + value.timestamp_subsec_nanos() as i128
}

fn utc(text: &str) -> Instant {
    at(text.parse().unwrap())
}

#[test]
fn fallback_local_date_is_stable_across_a_dst_fold() {
    let first_fold = utc("2026-10-25T00:30:00Z");
    let second_fold = utc("2026-10-25T01:30:00Z");

    let first = occurrence_local_date(None, first_fold, "Europe/Paris").unwrap();
    let second = occurrence_local_date(None, second_fold, "Europe/Paris").unwrap();

    assert_eq!(
        format!("{:04}-{:02}-{:02}", first.year, first.month, first.day),
        "2026-10-25"
    );
    assert_eq!(second, first);
}

#[test]
fn local_date_requires_a_valid_iana_zone_even_when_explicit() {
    let explicit = CalendarDate::new(2026, 9, 4);
    let noon = utc("2026-09-04T12:00:00Z");

    assert_eq!(
        occurrence_local_date(explicit, noon, "not/a-zone"),
        Err(PublishedHabitEvidenceError::Invalid)
    );
}

#[test]
fn local_dates_go_by_the_zone() {
    let late = utc("2026-09-04T23:30:00Z");
    assert_eq!(
        occurrence_local_date(None, late, "Asia/Tokyo").unwrap(),
        CalendarDate::new(2026, 9, 5).unwrap()
    );
    assert_eq!(
        occurrence_local_date(None, late, "America/New_York").unwrap(),
        CalendarDate::new(2026, 9, 4).unwrap()
    );
    assert_eq!(
        occurrence_local_date(CalendarDate::new(2026, 1, 1), late, "Asia/Tokyo").unwrap(),
        CalendarDate::new(2026, 1, 1).unwrap()
    );
}

#[test]
fn offsets_go_by_the_zone_and_the_time_of_year() {
    let zoned = |text: &str| {
        chrono_to_offset_in_timezone(utc(text), "Europe/Paris").unwrap().offset_seconds
    };
    assert_eq!(zoned("2026-07-01T12:00:00Z"), 7_200);
    assert_eq!(zoned("2026-12-01T12:00:00Z"), 3_600);
    assert!(chrono_to_offset_in_timezone(NOON, "nowhere").is_err());
}

#[test]
fn the_ranges_of_the_calendars_are_those_of_the_crates() {
    let first = time::Date::MIN.midnight().assume_utc();
    let last = time::Date::MAX.with_hms_micro(23, 59, 59, 999_999).unwrap().assume_utc();
    assert_eq!(first.unix_timestamp_nanos(), PLANNER_FIRST_MICROSECOND * 1_000);
    assert_eq!(last.unix_timestamp_nanos(), PLANNER_LAST_MICROSECOND * 1_000);
    assert_eq!(
        chrono::DateTime::<chrono::Utc>::MIN_UTC.timestamp_micros() as i128,
        CALENDAR_FIRST_MICROSECOND
    );
    assert_eq!(
        chrono::DateTime::<chrono::Utc>::MAX_UTC.timestamp_micros() as i128,
        CALENDAR_LAST_MICROSECOND
    );
}

#[test]
fn instants_go_to_the_planner_and_back() {
    assert_eq!(chrono_to_offset(NOON + 1_234), Ok(NOON + 1_000));
    assert_eq!(offset_to_chrono(NOON + 1_000), Ok(NOON + 1_000));
    assert!(chrono_to_offset(PLANNER_LAST_MICROSECOND * 1_000 + 1_000).is_err());
}

fn habit_row(constraints: Json) -> Option<HabitItemRow> {
    Some(HabitItemRow { kind: "habit".to_owned(), has_recurrence: true, constraints })
}

fn plain() -> Json {
    Json::Object(Vec::new())
}

fn evidence(id: u128) -> HabitOccurrenceEvidence {
    HabitOccurrenceEvidence {
        id,
        habit_id: 3,
        planner_occurrence_id: id + 1_000,
        source_schedule_revision_id: 5,
        source_item_revision: 1,
        policy_fingerprint: format!("sha256:{}", "00".repeat(32)),
        identity: Json::Text("daily".to_owned()),
        nominal_start: NOON,
        nominal_end: NOON + HOUR,
        window_start: NOON,
        window_end: NOON + 2 * HOUR,
        local_date: CalendarDate::new(2026, 9, 4).unwrap(),
        timezone_name: "UTC".to_owned(),
        expected_duration_seconds: Some(1_800),
        expected_quantity: None,
        expected_unit: None,
    }
}

fn occurrence(id: u128) -> HabitOccurrence {
    HabitOccurrence { evidence: evidence(id), outcome: None, missed_resolution: None }
}

fn idempotency() -> HabitIdempotency {
    HabitIdempotency {
        namespace: "habits.outcome".to_owned(),
        key_hash: [1; 32],
        request_fingerprint: [2; 32],
        operation_id: 90,
        actor_session_id: None,
    }
}

fn outcome_write(expected_revision: u64) -> OutcomeWrite {
    OutcomeWrite {
        habit_id: 3,
        occurrence_id: 7,
        expected_revision,
        outcome: HabitOutcomeInput {
            status: HabitOutcomeStatus::Completed,
            progress_basis_points: 10_000,
            quantity: None,
            unit: None,
            actual_seconds: Some(1_500),
            note: None,
            occurred_at: NOON,
        },
        recorded_at: NOON + MINUTE,
        idempotency: idempotency(),
    }
}

#[test]
fn only_live_habits_have_outcomes() {
    assert!(require_active_habit(3, habit_row(plain())).is_ok());
    assert!(matches!(
        require_active_habit(3, None).unwrap_err(),
        HabitRepositoryError::HabitNotFound(3)
    ));
    let task =
        Some(HabitItemRow { kind: "task".to_owned(), has_recurrence: true, constraints: plain() });
    assert!(matches!(
        require_active_habit(3, task).unwrap_err(),
        HabitRepositoryError::NotHabit(3)
    ));
}

#[test]
fn an_outcome_is_recorded_at_its_revision() {
    let step =
        put_outcome(None, habit_row(plain()), Some(occurrence(7)), outcome_write(0)).unwrap();
    let OutcomeStep::Write(plan) = step else { panic!("{step:?}") };
    assert_eq!((plan.previous_revision, plan.revision), (0, 1));
    let outcome = plan.updated.outcome.unwrap();
    assert_eq!((outcome.revision, outcome.status), (1, HabitOutcomeStatus::Completed));
    assert_eq!(outcome.actual_seconds, Some(1_500));

    assert!(matches!(
        put_outcome(None, habit_row(plain()), Some(occurrence(7)), outcome_write(4)).unwrap_err(),
        HabitRepositoryError::RevisionConflict { expected: 4, actual: 0, .. }
    ));
    assert!(matches!(
        put_outcome(None, habit_row(plain()), None, outcome_write(0)).unwrap_err(),
        HabitRepositoryError::OccurrenceNotFound(7)
    ));
    let replayed = put_outcome(
        Some(StoredReceipt::Occurrence(occurrence(7))),
        None,
        None,
        outcome_write(0),
    )
    .unwrap();
    assert!(matches!(replayed, OutcomeStep::Replayed(_)));
}

fn pause(id: u128, started_at: Instant, ended_at: Option<Instant>) -> HabitPause {
    HabitPause {
        id,
        habit_id: 3,
        revision: 1,
        started_at,
        ended_at,
        preserves_streak: true,
        created_at: started_at,
        updated_at: started_at,
    }
}

fn pause_create(id: u128, started_at: Instant) -> PauseCreate {
    PauseCreate {
        id,
        habit_id: 3,
        expected_revision: 0,
        started_at,
        preserves_streak: true,
        recorded_at: NOON + DAY,
        idempotency: idempotency(),
    }
}

#[test]
fn a_habit_has_one_open_pause_at_a_time() {
    let step =
        create_pause(None, habit_row(plain()), &Vec::new(), pause_create(8, NOON)).unwrap();
    let PauseStep::Write(plan) = step else { panic!("{step:?}") };
    assert_eq!(plan.pause.ended_at, None);
    assert_eq!(plan.revision, 1);

    assert!(matches!(
        create_pause(
            None,
            habit_row(plain()),
            &Vec::new(),
            PauseCreate { preserves_streak: false, ..pause_create(8, NOON) }
        )
        .unwrap_err(),
        HabitRepositoryError::EvidenceConflict
    ));
    assert!(matches!(
        create_pause(
            None,
            habit_row(plain()),
            &vec![pause(4, NOON - DAY, Some(NOON + HOUR))],
            pause_create(8, NOON)
        )
        .unwrap_err(),
        HabitRepositoryError::OpenPauseConflict(_)
    ));
    assert!(matches!(
        create_pause(
            None,
            habit_row(plain()),
            &vec![pause(4, NOON - DAY, None)],
            pause_create(8, NOON)
        )
        .unwrap_err(),
        HabitRepositoryError::OpenPauseConflict(_)
    ));
    assert!(matches!(
        create_pause(
            None,
            habit_row(plain()),
            &vec![pause(8, NOON - DAY, Some(NOON - HOUR))],
            pause_create(8, NOON)
        )
        .unwrap_err(),
        HabitRepositoryError::PauseIdentityConflict(_)
    ));
}

#[test]
fn a_pause_ends_once() {
    let resume = |ended_at: Instant| PauseResume {
        id: 8,
        habit_id: 3,
        expected_revision: 1,
        ended_at,
        recorded_at: NOON + DAY,
        idempotency: idempotency(),
    };
    let step = resume_pause(
        None,
        habit_row(plain()),
        Some(pause(8, NOON, None)),
        resume(NOON + HOUR),
    )
    .unwrap();
    let PauseStep::Write(plan) = step else { panic!("{step:?}") };
    assert_eq!(plan.pause.ended_at, Some(NOON + HOUR));
    assert_eq!(plan.pause.revision, 2);
    assert!(matches!(
        resume_pause(
            None,
            habit_row(plain()),
            Some(pause(8, NOON, Some(NOON + MINUTE))),
            resume(NOON + HOUR)
        )
        .unwrap_err(),
        HabitRepositoryError::PauseAlreadyClosed(_)
    ));
    assert!(matches!(
        resume_pause(None, habit_row(plain()), None, resume(NOON + HOUR)).unwrap_err(),
        HabitRepositoryError::PauseNotFound(8)
    ));
    assert!(matches!(
        resume_pause(None, habit_row(plain()), Some(pause(8, NOON, None)), resume(NOON))
            .unwrap_err(),
        HabitRepositoryError::InvalidPauseInterval
    ));
}

#[test]
fn pauses_cover_what_overlaps_them() {
    let pauses = vec![pause(8, NOON, Some(NOON + HOUR))];
    assert!(is_paused(&pauses, 3, NOON + MINUTE, NOON + 2 * HOUR));
    assert!(!is_paused(&pauses, 3, NOON + HOUR, NOON + 2 * HOUR));
    assert!(!is_paused(&pauses, 4, NOON, NOON + HOUR));
    assert!(is_paused(&vec![pause(8, NOON, None)], 3, NOON + 100 * DAY, NOON + 101 * DAY));
    let constraints = |value: Json| {
        Json::Object(vec![("preserves_streak_when_paused".to_owned(), value)])
    };
    assert!(preserves_streak(&plain()));
    assert!(preserves_streak(&constraints(Json::Null)));
    assert!(!preserves_streak(&constraints(Json::Bool(false))));
}

#[test]
fn stored_actions_are_read_back() {
    for action in [
        HabitMissedResolutionAction::DecisionRequired,
        HabitMissedResolutionAction::ReductionPending,
        HabitMissedResolutionAction::Cancelled {
            reason: HabitMissedCancellationReason::SourcePaused,
            resume_action: HabitMissedResumeAction::Carry,
        },
        HabitMissedResolutionAction::Skip,
        HabitMissedResolutionAction::Carry { window_start: NOON, window_end: NOON + HOUR },
        HabitMissedResolutionAction::ReduceFrequency {
            suppressed_planner_occurrence_ids: vec![4],
        },
    ] {
        let columns = missed_action_columns(&action);
        let read = parse_missed_action(
            columns.action,
            columns.cancellation_reason,
            columns.cancelled_resume_action,
            columns.carry_start,
            columns.carry_end,
            columns.suppressed,
        )
        .unwrap();
        assert_eq!(format!("{read:?}"), format!("{action:?}"));
    }
    assert!(parse_missed_action("carry", None, None, None, None, Vec::new()).is_err());
    assert!(parse_missed_action("vanish", None, None, None, None, Vec::new()).is_err());
}

#[test]
fn stored_names_are_read_back() {
    for status in [
        HabitOutcomeStatus::Unresolved,
        HabitOutcomeStatus::Partial,
        HabitOutcomeStatus::Completed,
        HabitOutcomeStatus::Skipped,
    ] {
        assert_eq!(parse_outcome_status(outcome_status_name(status)).unwrap(), status);
    }
    for policy in [
        HabitMissedPolicy::Skip,
        HabitMissedPolicy::Carry,
        HabitMissedPolicy::ReduceFrequency,
        HabitMissedPolicy::Ask,
    ] {
        assert_eq!(parse_missed_policy(missed_policy_name(policy)).unwrap(), policy);
    }
    for reason in [
        HabitMissedCancellationReason::SourceCompleted,
        HabitMissedCancellationReason::SourceSkipped,
        HabitMissedCancellationReason::SourcePaused,
        HabitMissedCancellationReason::SourceObsolete,
    ] {
        assert_eq!(
            parse_missed_cancellation_reason(missed_cancellation_reason_name(reason)).unwrap(),
            reason
        );
    }
    for action in [
        HabitMissedResumeAction::DecisionRequired,
        HabitMissedResumeAction::Skip,
        HabitMissedResumeAction::Carry,
        HabitMissedResumeAction::ReduceFrequency,
    ] {
        assert_eq!(
            parse_missed_resume_action(missed_resume_action_name(action)).unwrap(),
            action
        );
    }
    assert!(parse_missed_policy("").is_err());
    assert_eq!(to_i64(5).unwrap(), 5);
    assert!(to_i64(u64::MAX).is_err());
    assert!(from_i64(-1).is_err());
}

#[test]
fn a_cancelled_decision_remembers_what_it_was() {
    assert_eq!(
        missed_resume_action(&HabitMissedResolutionAction::Skip),
        Some(HabitMissedResumeAction::Skip)
    );
    assert_eq!(restore_policy(HabitMissedResumeAction::DecisionRequired), HabitMissedPolicy::Ask);
    assert_eq!(explicit_policy(HabitMissedExplicitAction::Carry), HabitMissedPolicy::Carry);
    let opened = new_resolution(
        &occurrence(7),
        HabitMissedPolicy::Ask,
        HabitMissedResolutionAction::DecisionRequired,
        NOON,
    );
    assert_eq!(opened.revision, 1);
    let next =
        advance_resolution(&opened, HabitMissedResolutionAction::Skip, NOON + HOUR).unwrap();
    assert_eq!((next.revision, next.created_at, next.updated_at), (2, NOON, NOON + HOUR));
    assert!(transition_allowed(true, false, false).is_ok());
    assert!(transition_allowed(false, false, true).is_err());
    assert!(transition_allowed(false, true, true).is_ok());
    assert!(matches!(
        reduction_action(Some(1), Some(44)).unwrap(),
        HabitMissedResolutionAction::ReduceFrequency { .. }
    ));
}

#[test]
fn a_reconciliation_with_nothing_to_do_does_nothing() {
    assert!(matches!(
        begin_reconcile(None, &BTreeMap::new()).unwrap(),
        ReconcileStart::Nothing
    ));
    let configuration = HabitMissedConfiguration {
        item_revision: 1,
        policy_fingerprint: [0; 32],
        policy: HabitMissedPolicy::Skip,
        is_active: true,
    };
    let policies = BTreeMap::from([(3, configuration)]);
    assert!(matches!(begin_reconcile(None, &policies).unwrap(), ReconcileStart::Run));
    assert_eq!(configuration_of(&policies, 3).unwrap().item_revision, 1);
    assert!(configuration_of(&policies, 4).is_err());
    assert_ne!(child_operation_id(1, 2), child_operation_id(1, 3));
    assert_eq!(child_operation_id(1, 2), child_operation_id(1, 2));
}

#[test]
fn child_operations_are_named_after_their_evidence() {
    let parent = uuid::Uuid::from_u128(0x67e5_5044_10b1_426f_9247_bb68_0e5f_e0c8);
    let evidence = uuid::Uuid::from_u128(17);
    let expected = uuid::Uuid::new_v5(&parent, evidence.as_bytes());
    assert_eq!(child_operation_id(parent.as_u128(), 17), expected.as_u128());
}

#[test]
fn receipts_answer_the_same_request_alone() {
    let row = |fingerprint: u8| ReceiptRow {
        namespace: "habits.outcome".to_owned(),
        key_hash: vec![1; 32],
        request_fingerprint: vec![fingerprint; 32],
        receipt: Some(StoredReceipt::Occurrence(occurrence(7))),
        content_valid: true,
    };
    assert!(replay_receipt(Vec::new(), Vec::new(), &idempotency()).unwrap().is_none());
    assert!(replay_receipt(vec![row(2)], Vec::new(), &idempotency()).unwrap().is_some());
    assert!(matches!(
        replay_receipt(vec![row(9)], Vec::new(), &idempotency()).unwrap_err(),
        HabitRepositoryError::IdempotencyConflict
    ));
    assert!(admit_ephemeral_receipt(10).is_ok());
    assert!(!evicts_ephemeral_receipt(10));
}

#[test]
fn pages_of_changes_follow_each_other() {
    let row = |sequence: i64| HabitChangeRow {
        sequence,
        change: Some(HabitDeltaChange::OccurrenceUpsert { occurrence: occurrence(7) }),
        content_valid: true,
    };
    assert_eq!(page_fetch_limit(10).unwrap(), 11);
    let page = delta(0, 9, 2, vec![row(1), row(2), row(3)]).unwrap();
    assert!(page.has_more);
    assert_eq!((page.changes.len(), page.watermark), (2, 2));
    let last = delta(2, 9, 2, vec![row(3)]).unwrap();
    assert!(!last.has_more);
    assert_eq!(last.changes.len(), 1);
    assert!(matches!(
        delta(10, 9, 2, Vec::new()).unwrap_err(),
        HabitRepositoryError::InvalidCursor
    ));
    let (listed, more) = list_occurrences(vec![occurrence(1), occurrence(2)], 1);
    assert_eq!((listed.len(), more), (1, true));
    assert!(habit_deduplication_key(0, 4).contains("00000000-0000-0000-0000-000000000000"));
}

fn planned(id: u128, series_item_id: u128) -> PlannedOccurrence {
    PlannedOccurrence {
        id,
        series_item_id,
        identity: Json::Text("daily".to_owned()),
        identity_bytes: 7,
        nominal_start: NOON,
        nominal_end: NOON + HOUR,
        window_start: NOON,
        window_end: NOON + 2 * HOUR,
        local_date: None,
        state: OccurrenceState::Generated,
    }
}

fn series_row(kind: &str, revision: i64) -> SeriesItemRow {
    SeriesItemRow {
        kind: kind.to_owned(),
        revision,
        has_recurrence: true,
        timezone_name: "UTC".to_owned(),
        constraints: plain(),
        duration_seconds: Some(1_800),
        policy_document: b"policy".to_vec(),
        unit_valid: true,
    }
}

#[test]
fn policies_are_published_for_habits_alone() {
    let revisions = BTreeMap::from([(3, 2), (4, 1)]);
    let sensitivity = BTreeMap::from([(3, true), (4, false)]);
    let policies = published_policies(
        vec![(3, series_row("habit", 2)), (4, series_row("task", 1))],
        &revisions,
        &sensitivity,
        1_000,
    )
    .unwrap();
    assert_eq!(policies.keys().copied().collect::<Vec<_>>(), vec![3]);
    assert!(policies[&3].is_sensitive);
    assert_eq!(policies[&3].expected_duration_seconds, Some(1_800));
    assert_eq!(policies[&3].fingerprint, dayweave_api::hashing::hash_text("policy"));
    assert_eq!(
        published_policies(
            vec![(3, series_row("habit", 3))],
            &revisions,
            &sensitivity,
            1_000
        )
        .unwrap_err(),
        PublishedHabitEvidenceError::Invalid
    );
    assert_eq!(published_series(&vec![planned(1, 9), planned(2, 3), planned(4, 9)]), vec![3, 9]);
    assert!(looks_for_reduction_targets(true, &vec![1]));
    assert!(!looks_for_reduction_targets(false, &vec![1]));
    assert!(!looks_for_reduction_targets(true, &Vec::new()));
}

#[test]
fn targets_have_an_amount_and_a_unit_or_neither() {
    let target = |members: Vec<(&str, Json)>| {
        Json::Object(vec![(
            "habit_target".to_owned(),
            Json::Object(members.into_iter().map(|(k, v)| (k.to_owned(), v)).collect()),
        )])
    };
    let amount = |value: u64| Json::Number(JsonNumber::Unsigned(value));
    let unit = || Json::Text("pages".to_owned());
    assert_eq!(published_target(&plain(), true, 100).unwrap(), (None, None));
    assert_eq!(
        published_target(&target(vec![("amount", amount(5)), ("unit", unit())]), true, 100)
            .unwrap(),
        (Some(5), Some("pages".to_owned()))
    );
    for (members, valid) in [
        (vec![("amount", amount(5))], true),
        (vec![("amount", amount(0)), ("unit", unit())], true),
        (vec![("amount", amount(101)), ("unit", unit())], true),
        (vec![("amount", amount(5)), ("unit", unit())], false),
    ] {
        assert!(published_target(&target(members), valid, 100).is_err());
    }
}

#[test]
fn publishing_an_occurrence_again_writes_nothing_new() {
    let policy = published_policy(series_row("habit", 2), Some(2), Some(false), 1_000)
        .unwrap()
        .unwrap();
    let first =
        insert_published_occurrence(5, 60, &planned(1_007, 3), &policy, None, true).unwrap();
    let PublicationStep::Insert(made) = first else { panic!("{first:?}") };
    assert_eq!((made.id, made.planner_occurrence_id, made.habit_id), (60, 1_007, 3));
    assert_eq!(made.local_date, CalendarDate::new(2026, 9, 4).unwrap());
    let existing = ExistingEvidence {
        evidence: made,
        content_valid: true,
        missed_action: None,
        carry_start: None,
        carry_end: None,
    };
    let second =
        insert_published_occurrence(6, 61, &planned(1_007, 3), &policy, Some(&existing), true)
            .unwrap();
    assert!(matches!(second, PublicationStep::Known(60)));

    let policies = BTreeMap::from([(3, policy)]);
    let record = |occurrence: &PlannedOccurrence, existing: Option<&ExistingEvidence>| {
        record_published_habit_occurrence(7, 62, occurrence, &policies, existing, true)
    };
    assert!(record(&planned(1_008, 4), None).unwrap().is_none());
    assert!(matches!(
        record(&planned(1_008, 3), None).unwrap(),
        Some(PublicationStep::Insert(_))
    ));
    let moved = PlannedOccurrence { nominal_end: NOON + 2 * HOUR, ..planned(1_007, 3) };
    assert_eq!(
        record(&moved, Some(&existing)).unwrap_err(),
        PublishedHabitEvidenceError::Conflict
    );
}

#[test]
fn recurrence_without_evidence_is_empty() {
    let recurrence = authoritative_habit_recurrence(
        NOON,
        NOON + DAY,
        0,
        4,
        &Vec::new(),
        &Vec::new(),
        &Vec::new(),
        &Vec::new(),
    )
    .unwrap();
    assert_eq!(recurrence.change_head, 4);
    assert!(recurrence.context.exceptions.is_empty());
    assert!(recurrence.context.pauses.is_empty());
    assert!(authoritative_habit_recurrence(
        NOON,
        NOON + DAY,
        10_001,
        4,
        &Vec::new(),
        &Vec::new(),
        &Vec::new(),
        &Vec::new(),
    )
    .is_err());
}

#[test]
fn what_was_stored_of_a_report_and_a_pause_reads_back() {
    let outcome = HabitOutcome {
        revision: 4,
        status: HabitOutcomeStatus::Partial,
        progress_basis_points: 5_000,
        quantity: Some(12),
        unit: Some("pages".to_owned()),
        actual_seconds: Some(900),
        note: None,
        occurred_at: NOON,
        updated_at: NOON + MINUTE,
    };
    let row = outcome_row(outcome.clone()).unwrap();
    assert_eq!(row.status, "partial");
    let read = outcome_from_row(row).unwrap();
    assert_eq!(read.revision, 4);
    assert_eq!(read.status, HabitOutcomeStatus::Partial);
    assert_eq!(read.progress_basis_points, 5_000);
    assert_eq!(read.actual_seconds, Some(900));
    assert_eq!(read.unit.as_deref(), Some("pages"));
    let long = HabitOutcome { actual_seconds: Some(u64::MAX), ..outcome };
    assert!(outcome_row(long).is_err());

    let pause = HabitPause {
        id: 1,
        habit_id: 2,
        revision: 3,
        started_at: NOON,
        ended_at: Some(NOON + HOUR),
        preserves_streak: true,
        created_at: NOON,
        updated_at: NOON,
    };
    let row = stored_pause(&pause).unwrap();
    assert_eq!(row.revision, 3);
    let read = pause_from_row(row).unwrap();
    assert_eq!((read.id, read.habit_id, read.revision), (1, 2, 3));
    assert_eq!(read.ended_at, Some(NOON + HOUR));
    assert!(stored_pause(&HabitPause { revision: u64::MAX, ..pause }).is_err());
}
