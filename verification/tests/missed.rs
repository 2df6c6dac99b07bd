use std::collections::BTreeMap;

use dayweave_api::habits::missed::{
    bound_reduction_needs_rebind, explicit_resume_action, maintained_action, maintenance_action,
    missed_action, source_cancellation_reason, MissedStep, ReductionTarget,
};
use dayweave_api::habits::model::{
    HabitIdempotency, HabitMissedCancellationReason, HabitMissedConfiguration,
    HabitMissedExplicitAction, HabitMissedPolicy, HabitMissedResolution,
    HabitMissedResolutionAction, HabitMissedResumeAction, HabitOccurrence,
    HabitOccurrenceEvidence, HabitOutcome, HabitOutcomeStatus, HabitPause, HabitRepositoryError,
    MissedResolveWrite, OccurrenceState,
};
use dayweave_api::habits::names::{missed_action_name, occurrence_state_name};
use dayweave_api::habits::passes::{ReconcilePass, ReconcileRow, ReconcileStage};
use dayweave_api::habits::publication::{record_occurrence_publication, PublicationRow};
use dayweave_api::habits::receipts::{
    receipt_insert_error, replay_missed_reconcile, searches_ephemeral_by_key, StoredReceipt,
};
use dayweave_api::habits::reconcile::{
    chosen_resolution, configuration_rows, insert_new_missed_resolution, is_closed_status, is_explicit_selection,
    resolve_missed, update_missed_resolution, HabitItemState, ReconcileProgress, ResolveStep,
};
use dayweave_api::habits::recurrence::{
    authoritative_habit_recurrence, AnchorRow, MissedEvidenceRow, OutcomeEvidenceRow, PauseRow,
    RecurrenceExceptionAction, RecurrencePause,
};
use dayweave_api::habits::rows::{occurrence_from_row, EvidenceRow, OutcomeRow, ResolutionRow};
use dayweave_api::habits::zones::PublishedHabitEvidenceError;
use dayweave_api::json::Json;
use dayweave_api::time::{CalendarDate, Instant, HOUR};

const NOON: Instant = 1_788_523_200_000_000_000;

const LATER: Instant = NOON + 48 * HOUR;

fn occurrence(id: u128) -> HabitOccurrence {
    HabitOccurrence {
        evidence: HabitOccurrenceEvidence {
            id,
            habit_id: 3,
            planner_occurrence_id: id + 1_000,
            source_schedule_revision_id: 5,
            source_item_revision: 1,
            policy_fingerprint: format!("sha256:{}", "00".repeat(32)),
            identity: Json::Text("daily".to_owned()),
            nominal_start: NOON,
            nominal_end: NOON + HOUR,
            window_start: NOON,
            window_end: NOON + 2 * HOUR,
            local_date: CalendarDate::new(2026, 9, 4).unwrap(),
            timezone_name: "UTC".to_owned(),
            expected_duration_seconds: Some(1_800),
            expected_quantity: None,
            expected_unit: None,
        },
        outcome: None,
        missed_resolution: None,
    }
}

fn resolution(id: u128, action: HabitMissedResolutionAction) -> HabitMissedResolution {
    HabitMissedResolution {
        occurrence_evidence_id: id,
        habit_id: 3,
        source_planner_occurrence_id: id + 1_000,
        revision: 1,
        configured_policy: HabitMissedPolicy::Skip,
        action,
        created_at: NOON,
        updated_at: NOON,
    }
}

fn decided(id: u128, action: HabitMissedResolutionAction) -> HabitOccurrence {
    HabitOccurrence { missed_resolution: Some(resolution(id, action)), ..occurrence(id) }
}

fn reported(status: HabitOutcomeStatus) -> Option<HabitOutcome> {
    Some(HabitOutcome {
        revision: 1,
        status,
        progress_basis_points: 10_000,
        quantity: None,
        unit: None,
        actual_seconds: None,
        note: None,
        occurred_at: NOON,
        updated_at: NOON,
    })
}

fn configuration() -> HabitMissedConfiguration {
    HabitMissedConfiguration {
        item_revision: 1,
        policy_fingerprint: [0; 32],
        policy: HabitMissedPolicy::Skip,
        is_active: true,
    }
}

fn pause() -> HabitPause {
    HabitPause {
        id: 8,
        habit_id: 3,
        revision: 1,
        started_at: NOON,
        ended_at: None,
        preserves_streak: true,
        created_at: NOON,
        updated_at: NOON,
    }
}

fn reduction(target: u128) -> HabitMissedResolutionAction {
    HabitMissedResolutionAction::ReduceFrequency { suppressed_planner_occurrence_ids: vec![target] }
}

fn unavailable() -> Result<HabitMissedResolutionAction, HabitRepositoryError> {
    Err(HabitRepositoryError::MissedReductionUnavailable)
}

fn target(outcome_eligible: bool, paused: bool, covers: bool, member: bool) -> ReductionTarget {
    ReductionTarget {
        outcome_eligible,
        paused,
        horizon_covers_target: covers,
        current_member: member,
    }
}

#[test]
fn sources_end_for_several_reasons() {
    let open = occurrence(7);
    let reason = |occurrence: &HabitOccurrence, configuration: HabitMissedConfiguration| {
        source_cancellation_reason(occurrence, &configuration, None, &Vec::new())
    };
    assert_eq!(reason(&open, configuration()), None);
    let inactive = HabitMissedConfiguration { is_active: false, ..configuration() };
    assert_eq!(reason(&open, inactive), Some(HabitMissedCancellationReason::SourceObsolete));
    let edited = HabitMissedConfiguration { policy_fingerprint: [1; 32], ..configuration() };
    assert_eq!(reason(&open, edited), Some(HabitMissedCancellationReason::SourceObsolete));
    let done =
        HabitOccurrence { outcome: reported(HabitOutcomeStatus::Completed), ..occurrence(7) };
    assert_eq!(
        reason(&done, configuration()),
        Some(HabitMissedCancellationReason::SourceCompleted)
    );
    let skipped =
        HabitOccurrence { outcome: reported(HabitOutcomeStatus::Skipped), ..occurrence(7) };
    assert_eq!(
        reason(&skipped, configuration()),
        Some(HabitMissedCancellationReason::SourceSkipped)
    );
    assert_eq!(
        source_cancellation_reason(&open, &configuration(), None, &vec![pause()]),
        Some(HabitMissedCancellationReason::SourcePaused)
    );
    let before = HabitPause { started_at: NOON - HOUR, ended_at: Some(NOON), ..pause() };
    assert_eq!(source_cancellation_reason(&open, &configuration(), None, &vec![before]), None);
    let carried = decided(
        7,
        HabitMissedResolutionAction::Cancelled {
            reason: HabitMissedCancellationReason::SourcePaused,
            resume_action: HabitMissedResumeAction::Carry,
        },
    );
    let window = Some((NOON - HOUR, NOON - 1));
    assert_eq!(
        source_cancellation_reason(&carried, &configuration(), window, &vec![before]),
        Some(HabitMissedCancellationReason::SourcePaused)
    );
}

#[test]
fn maintenance_changes_what_no_longer_applies() {
    let step = |occurrence: &HabitOccurrence, now: Instant| {
        maintenance_action(occurrence, &configuration(), None, &Vec::new(), None, now).unwrap()
    };
    let skip = decided(7, HabitMissedResolutionAction::Skip);
    assert!(matches!(step(&skip, LATER), MissedStep::Keep));
    let done = HabitOccurrence {
        outcome: reported(HabitOutcomeStatus::Completed),
        ..decided(7, HabitMissedResolutionAction::Skip)
    };
    assert!(matches!(
        step(&done, LATER),
        MissedStep::Replace(HabitMissedResolutionAction::Cancelled {
            reason: HabitMissedCancellationReason::SourceCompleted,
            resume_action: HabitMissedResumeAction::Skip,
        })
    ));
    let cancelled = decided(
        7,
        HabitMissedResolutionAction::Cancelled {
            reason: HabitMissedCancellationReason::SourcePaused,
            resume_action: HabitMissedResumeAction::ReduceFrequency,
        },
    );
    assert!(matches!(
        step(&cancelled, LATER),
        MissedStep::Derive { policy: HabitMissedPolicy::ReduceFrequency, binds_reduction: true }
    ));
    let carried = decided(
        7,
        HabitMissedResolutionAction::Carry { window_start: NOON, window_end: NOON + HOUR },
    );
    assert!(matches!(step(&carried, NOON), MissedStep::Keep));
    assert!(matches!(
        step(&carried, NOON + HOUR),
        MissedStep::Derive { policy: HabitMissedPolicy::Carry, binds_reduction: false }
    ));
    let mut asked = carried.clone();
    asked.missed_resolution.as_mut().unwrap().configured_policy = HabitMissedPolicy::Ask;
    assert!(matches!(
        step(&asked, NOON + HOUR),
        MissedStep::Replace(HabitMissedResolutionAction::DecisionRequired)
    ));
    let reduced = decided(7, reduction(44));
    assert!(matches!(
        step(&reduced, LATER),
        MissedStep::Replace(HabitMissedResolutionAction::ReductionPending)
    ));
    assert!(maintenance_action(
        &occurrence(7),
        &configuration(),
        None,
        &Vec::new(),
        None,
        LATER
    )
    .is_err());
}

#[test]
fn a_reduction_is_bound_anew_when_its_target_is_lost() {
    assert!(!bound_reduction_needs_rebind(
        &reduction(44),
        Some(target(true, false, true, true))
    ));
    assert!(!bound_reduction_needs_rebind(
        &reduction(44),
        Some(target(true, false, false, false))
    ));
    for lost in [
        target(false, false, true, true),
        target(true, true, true, true),
        target(true, false, true, false),
    ] {
        assert!(bound_reduction_needs_rebind(&reduction(44), Some(lost)));
    }
    assert!(bound_reduction_needs_rebind(&reduction(44), None));
    assert!(!bound_reduction_needs_rebind(&HabitMissedResolutionAction::Skip, None));
}

#[test]
fn reductions_wait_where_nothing_can_be_left_out() {
    let pending = || Some(HabitMissedResolutionAction::ReductionPending);
    assert!(matches!(
        missed_action(pending(), unavailable()).unwrap(),
        HabitMissedResolutionAction::ReductionPending
    ));
    assert!(matches!(
        missed_action(pending(), Ok(reduction(44))).unwrap(),
        HabitMissedResolutionAction::ReduceFrequency { .. }
    ));
    assert!(missed_action(pending(), Err(HabitRepositoryError::Internal)).is_err());
    assert!(missed_action(None, unavailable()).is_err());
}

#[test]
fn a_pass_runs_through_its_stages() {
    let mut pass = ReconcileProgress::new(3);
    assert_eq!(pass.fetch_limit().unwrap(), 4);
    assert_eq!(pass.take_rows(1), 1);
    let done = HabitOccurrence {
        outcome: reported(HabitOutcomeStatus::Completed),
        ..decided(7, HabitMissedResolutionAction::Skip)
    };
    let cancelled = HabitMissedResolutionAction::Cancelled {
        reason: HabitMissedCancellationReason::SourceCompleted,
        resume_action: HabitMissedResumeAction::Skip,
    };
    pass.maintain(&done, MissedStep::Replace(cancelled), None, unavailable(), LATER).unwrap();
    assert_eq!(pass.transitioned, vec![7]);

    assert_eq!(pass.fetch_limit().unwrap(), 3);
    assert_eq!(pass.take_rows(2), 2);
    let pending = decided(8, HabitMissedResolutionAction::ReductionPending);
    assert!(pass.bind(&pending, Ok(reduction(44)), LATER).unwrap());
    let waiting = decided(9, HabitMissedResolutionAction::ReductionPending);
    assert!(!pass.bind(&waiting, unavailable(), LATER).unwrap());
    assert!(pass.deferred_pending_work);
    assert_eq!(pass.transitioned, vec![7, 8]);

    assert_eq!(pass.capacity(), 1);
    assert_eq!(pass.take_rows(2), 1);
    assert!(pass.overflow);
    pass.open_case(
        &occurrence(10),
        &configuration(),
        Some(HabitMissedPolicy::Skip),
        Ok(HabitMissedResolutionAction::Skip),
        true,
        LATER,
    )
    .unwrap();

    let (answer, permanent) = pass.finish(true).unwrap();
    assert!(answer.has_more && permanent);
    let made: Vec<(u128, u64)> = answer
        .resolutions
        .iter()
        .map(|resolution| (resolution.occurrence_evidence_id, resolution.revision))
        .collect();
    assert_eq!(made, vec![(7, 2), (8, 2), (10, 1)]);
    assert_eq!(answer.resolutions[0].created_at, NOON);
    assert_eq!(answer.resolutions[0].updated_at, LATER);
    assert_eq!(answer.resolutions[2].created_at, LATER);
}

#[test]
fn a_pass_decides_for_its_habits_stage_by_stage() {
    let habit_id = occurrence(7).evidence.habit_id;
    let policies = BTreeMap::from([(habit_id, configuration())]);
    let mut pass = ReconcilePass::new(3);
    let maintenance = |occurrence: HabitOccurrence| ReconcileRow::Maintenance {
        occurrence,
        carried_before: None,
        pauses: Vec::new(),
        target: None,
        derived: None,
        reduction: unavailable(),
    };
    let mut stranger = decided(6, HabitMissedResolutionAction::Skip);
    stranger.evidence.habit_id = habit_id + 1;
    assert!(matches!(
        pass.decide(&policies, maintenance(stranger), LATER).unwrap_err(),
        HabitRepositoryError::EvidenceConflict
    ));
    assert!(matches!(
        pass.decide(&policies, maintenance(decided(7, HabitMissedResolutionAction::Skip)), LATER)
            .unwrap_err(),
        HabitRepositoryError::EvidenceConflict
    ));
    pass.decide(&policies, maintenance(decided(7, reduction(44))), LATER).unwrap();
    assert!(matches!(
        pass.progress.resolutions[0].action,
        HabitMissedResolutionAction::ReductionPending
    ));
    pass.go_on();
    assert_eq!(pass.stage, ReconcileStage::Pending);
    let pending = ReconcileRow::Pending {
        occurrence: decided(8, HabitMissedResolutionAction::ReductionPending),
        reduction: Ok(reduction(45)),
    };
    pass.decide(&policies, pending, LATER).unwrap();
    pass.go_on();
    assert_eq!(pass.stage, ReconcileStage::Fresh);
    let fresh = ReconcileRow::Fresh {
        occurrence: occurrence(9),
        stored_policy: Some(HabitMissedPolicy::Skip),
        derived: Some(HabitMissedResolutionAction::Skip),
        reduction: unavailable(),
        content_valid: true,
    };
    pass.decide(&policies, fresh, LATER).unwrap();
    pass.go_on();
    assert_eq!(pass.stage, ReconcileStage::Fresh);
    assert_eq!(pass.progress.transitioned, vec![7, 8]);
    let made: Vec<(u128, u64)> = pass
        .progress
        .resolutions
        .iter()
        .map(|resolution| (resolution.occurrence_evidence_id, resolution.revision))
        .collect();
    assert_eq!(made, vec![(7, 2), (8, 2), (9, 1)]);
    assert!(pass.progress.resolutions.iter().all(|resolution| resolution.updated_at == LATER));
}

#[test]
fn what_is_to_be_done_gives_the_action() {
    let derive = |binds_reduction: bool| MissedStep::Derive {
        policy: HabitMissedPolicy::ReduceFrequency,
        binds_reduction,
    };
    let pending = || Some(HabitMissedResolutionAction::ReductionPending);
    assert!(maintained_action(MissedStep::Keep, pending(), unavailable()).unwrap().is_none());
    assert!(matches!(
        maintained_action(
            MissedStep::Replace(HabitMissedResolutionAction::Skip),
            pending(),
            Err(HabitRepositoryError::Internal)
        ),
        Ok(Some(HabitMissedResolutionAction::Skip))
    ));
    assert!(matches!(
        maintained_action(derive(true), pending(), Ok(reduction(44))),
        Ok(Some(HabitMissedResolutionAction::ReduceFrequency { .. }))
    ));
    assert!(matches!(
        maintained_action(derive(true), pending(), unavailable()),
        Ok(Some(HabitMissedResolutionAction::ReductionPending))
    ));
    assert!(maintained_action(derive(true), pending(), Err(HabitRepositoryError::Internal))
        .is_err());
    assert!(matches!(
        maintained_action(derive(false), pending(), Ok(reduction(44))),
        Ok(Some(HabitMissedResolutionAction::ReductionPending))
    ));
    assert!(matches!(
        maintained_action(derive(false), None, Ok(reduction(44))),
        Err(HabitRepositoryError::Internal)
    ));
}

#[test]
fn a_choice_leads_to_the_next_decision() {
    let open = decided(7, HabitMissedResolutionAction::DecisionRequired);
    let derive = || MissedStep::Derive {
        policy: HabitMissedPolicy::ReduceFrequency,
        binds_reduction: true,
    };
    let pending = || Some(HabitMissedResolutionAction::ReductionPending);
    let (made, explicit) =
        chosen_resolution(&open, derive(), pending(), Ok(reduction(44)), LATER).unwrap();
    assert_eq!((made.revision, made.created_at, made.updated_at), (2, NOON, LATER));
    assert!(matches!(made.action, HabitMissedResolutionAction::ReduceFrequency { .. }));
    assert!(!explicit);
    let cancelled = MissedStep::Replace(HabitMissedResolutionAction::Cancelled {
        reason: HabitMissedCancellationReason::SourceObsolete,
        resume_action: HabitMissedResumeAction::Skip,
    });
    let (_, explicit) = chosen_resolution(&open, cancelled, None, unavailable(), LATER).unwrap();
    assert!(explicit);
    assert!(chosen_resolution(&open, derive(), None, unavailable(), LATER).is_err());
    assert!(chosen_resolution(&open, MissedStep::Keep, None, unavailable(), LATER).is_err());
    let mut full = open;
    full.missed_resolution.as_mut().unwrap().revision = i64::MAX as u64;
    assert!(chosen_resolution(&full, derive(), pending(), unavailable(), LATER).is_err());
}

fn report(planner_occurrence_id: u128, status: &str, points: i32) -> OutcomeEvidenceRow {
    OutcomeEvidenceRow {
        habit_id: 3,
        planner_occurrence_id,
        expected_duration_seconds: Some(1_801),
        status: status.to_owned(),
        progress_basis_points: points,
        content_valid: true,
    }
}

fn missed_row(id: u128, action: HabitMissedResolutionAction) -> MissedEvidenceRow {
    let mut evidence = occurrence(id).evidence;
    evidence.policy_fingerprint =
        "sha256:ba7816bf8f01cfea414140de5dae2223b00361a396177a9cb410ff61f20015ad".to_owned();
    MissedEvidenceRow {
        evidence,
        resolution: resolution(id, action),
        content_valid: true,
        source_outcome_status: None,
        source_paused: false,
        source_is_effectively_suppressed: false,
        current_policy: b"abc".to_vec(),
        current_item_revision: 4,
        target_ineligible: false,
        reduction_is_effective: true,
        identity_readable: true,
        ordinal: Some(6),
    }
}

#[test]
fn the_planner_is_told_what_was_reported_and_decided() {
    let outcomes = vec![
        report(1_001, "partial", 5_000),
        report(1_002, "skipped", 0),
        report(1_003, "completed", 10_000),
        report(1_004, "partial", 2_500),
    ];
    let missed = vec![
        missed_row(5, reduction(1_001)),
        missed_row(1, HabitMissedResolutionAction::Skip),
        missed_row(
            6,
            HabitMissedResolutionAction::Carry {
                window_start: NOON + 3 * HOUR,
                window_end: NOON + 4 * HOUR,
            },
        ),
        missed_row(7, HabitMissedResolutionAction::Skip),
        missed_row(7, HabitMissedResolutionAction::Skip),
    ];
    let anchors = vec![AnchorRow { habit_id: 3, occurred_at: NOON + 7, content_valid: true }];
    let pauses = vec![
        PauseRow { habit_id: 3, started_at: NOON - HOUR, ended_at: None },
        PauseRow { habit_id: 3, started_at: NOON - HOUR, ended_at: Some(NOON) },
    ];
    let horizon_end = NOON + 24 * HOUR;
    let context = authoritative_habit_recurrence(
        NOON, horizon_end, 0, 9, &outcomes, &missed, &anchors, &pauses,
    )
    .unwrap()
    .context;
    let left_out: Vec<u128> = context
        .exceptions
        .iter()
        .filter(|exception| exception.action == RecurrenceExceptionAction::Skip)
        .map(|exception| exception.occurrence_id)
        .collect();
    assert_eq!(left_out, vec![1_002, 1_001, 1_007]);
    let partial: Vec<(u128, u16, u32)> = context
        .partial_progress
        .iter()
        .map(|(id, part)| (*id, part.progress_basis_points, part.expected_duration_minutes))
        .collect();
    assert_eq!(partial, vec![(1_004, 2_500, 31)]);
    let moved = context.exceptions.iter().find(|exception| exception.occurrence_id == 1_006);
    let Some(RecurrenceExceptionAction::Move { start, end, source }) =
        moved.map(|exception| exception.action)
    else {
        panic!("{moved:?}")
    };
    assert_eq!((start, end), (NOON + 3 * HOUR, NOON + 4 * HOUR));
    assert_eq!((source.evidence_id, source.item_revision, source.ordinal), (6, 4, 6));
    assert!(context.completed_occurrence_ids.contains(&1_003));
    assert_eq!(context.completion_anchors.get(&3), Some(&NOON));
    assert_eq!(
        context.pauses,
        vec![RecurrencePause { item_id: 3, start: NOON, end: horizon_end }]
    );

    let conflict = authoritative_habit_recurrence(
        NOON,
        horizon_end,
        0,
        9,
        &vec![report(1_001, "partial", 5_000), report(1_001, "partial", 5_000)],
        &Vec::new(),
        &Vec::new(),
        &Vec::new(),
    );
    assert_eq!(conflict.unwrap_err(), PublishedHabitEvidenceError::Conflict);
}

#[test]
fn a_pass_that_finds_nothing_is_answered_for_a_while_only() {
    let (answer, permanent) = ReconcileProgress::new(5).finish(true).unwrap();
    assert!(answer.resolutions.is_empty() && !answer.has_more && !permanent);
    assert!(ReconcileProgress::new(5).finish(false).is_err());
    assert!(matches!(
        replay_missed_reconcile(Some(StoredReceipt::MissedReconcile(answer))).unwrap(),
        Some(_)
    ));
}

#[test]
fn a_pass_leaves_work_for_another_one() {
    let mut pass = ReconcileProgress::new(2);
    let reduced = decided(7, reduction(44));
    let pending = || MissedStep::Replace(HabitMissedResolutionAction::ReductionPending);
    pass.maintain(&reduced, pending(), None, unavailable(), LATER).unwrap();
    assert!(!pass.deferred_pending_work);
    pass.maintain(&decided(8, reduction(45)), pending(), None, Ok(reduction(46)), LATER).unwrap();
    assert!(pass.deferred_pending_work);
}

#[test]
fn a_pass_refuses_what_does_not_belong_to_it() {
    let mut pass = ReconcileProgress::new(2);
    assert!(matches!(
        pass.maintain(&occurrence(7), MissedStep::Keep, None, unavailable(), LATER).unwrap_err(),
        HabitRepositoryError::Internal
    ));
    let skip = decided(7, HabitMissedResolutionAction::Skip);
    assert!(matches!(
        pass.maintain(&skip, MissedStep::Keep, None, unavailable(), LATER).unwrap_err(),
        HabitRepositoryError::EvidenceConflict
    ));
    let mut open = |policy: Option<HabitMissedPolicy>, occurrence: HabitOccurrence| {
        pass.open_case(
            &occurrence,
            &configuration(),
            policy,
            Ok(HabitMissedResolutionAction::Skip),
            true,
            LATER,
        )
    };
    assert!(matches!(open(None, occurrence(7)).unwrap_err(), HabitRepositoryError::Internal));
    assert!(matches!(
        open(Some(HabitMissedPolicy::Ask), occurrence(7)).unwrap_err(),
        HabitRepositoryError::EvidenceConflict
    ));
    assert!(matches!(
        open(
            Some(HabitMissedPolicy::Skip),
            decided(7, HabitMissedResolutionAction::Skip)
        )
        .unwrap_err(),
        HabitRepositoryError::Internal
    ));
    assert!(pass.resolutions.is_empty());
}

fn resolve_write(action: HabitMissedExplicitAction, active: bool) -> MissedResolveWrite {
    MissedResolveWrite {
        habit_id: 3,
        occurrence_id: 7,
        expected_revision: 1,
        action,
        current_item_revision: 4,
        current_policy_fingerprint: [0; 32],
        current_item_is_active: active,
        recorded_at: LATER,
        idempotency: HabitIdempotency {
            namespace: "habits.missed.resolve".to_owned(),
            key_hash: [1; 32],
            request_fingerprint: [2; 32],
            operation_id: 90,
            actor_session_id: None,
        },
    }
}

fn item(status: &str) -> Option<HabitItemState> {
    Some(HabitItemState {
        revision: 4,
        status: status.to_owned(),
        trashed: false,
        has_recurrence: true,
        is_leaf: true,
        policy_readable: true,
    })
}

fn asked() -> Option<HabitOccurrence> {
    Some(decided(7, HabitMissedResolutionAction::DecisionRequired))
}

#[test]
fn a_person_decides_an_open_case() {
    let write = resolve_write(HabitMissedExplicitAction::Carry, true);
    let step = resolve_missed(None, item("planned"), asked(), &Vec::new(), &write).unwrap();
    assert!(matches!(
        step,
        ResolveStep::Decide {
            step: MissedStep::Derive { policy: HabitMissedPolicy::Carry, binds_reduction: true },
            ..
        }
    ));
    let replayed = resolve_missed(
        Some(StoredReceipt::MissedResolution(resolution(7, HabitMissedResolutionAction::Skip))),
        None,
        None,
        &Vec::new(),
        &write,
    )
    .unwrap();
    assert!(matches!(replayed, ResolveStep::Replayed(_)));
    assert!(matches!(
        resolve_missed(
            Some(StoredReceipt::Occurrence(occurrence(7))),
            item("planned"),
            asked(),
            &Vec::new(),
            &write
        )
        .unwrap_err(),
        HabitRepositoryError::IdempotencyConflict
    ));
}

#[test]
fn a_choice_outlives_its_habit_as_a_cancellation() {
    let write = resolve_write(HabitMissedExplicitAction::ReduceFrequency, false);
    let step = resolve_missed(None, item("completed"), asked(), &Vec::new(), &write).unwrap();
    let ResolveStep::Decide { step: MissedStep::Replace(action), .. } = step else {
        panic!("{step:?}")
    };
    assert!(matches!(
        action,
        HabitMissedResolutionAction::Cancelled {
            reason: HabitMissedCancellationReason::SourceObsolete,
            resume_action: HabitMissedResumeAction::ReduceFrequency,
        }
    ));
    assert!(is_explicit_selection(&action));
    assert!(!is_explicit_selection(&HabitMissedResolutionAction::Skip));
    assert!(!is_explicit_selection(&HabitMissedResolutionAction::Cancelled {
        reason: HabitMissedCancellationReason::SourceObsolete,
        resume_action: HabitMissedResumeAction::DecisionRequired,
    }));
    assert_eq!(
        explicit_resume_action(HabitMissedExplicitAction::Skip),
        HabitMissedResumeAction::Skip
    );
    assert!(is_closed_status("blocked") && !is_closed_status("planned"));
}

#[test]
fn a_choice_is_refused_for_what_it_was_not_made_for() {
    let write = resolve_write(HabitMissedExplicitAction::Skip, true);
    let refusal = |item: Option<HabitItemState>, occurrence: Option<HabitOccurrence>| {
        resolve_missed(None, item, occurrence, &Vec::new(), &write).unwrap_err()
    };
    assert!(matches!(refusal(None, asked()), HabitRepositoryError::HabitNotFound(3)));
    assert!(matches!(
        refusal(item("cancelled"), asked()),
        HabitRepositoryError::EvidenceConflict
    ));
    let edited = item("planned").map(|state| HabitItemState { revision: 5, ..state });
    assert!(matches!(refusal(edited, asked()), HabitRepositoryError::EvidenceConflict));
    let unreadable =
        item("planned").map(|state| HabitItemState { policy_readable: false, ..state });
    assert!(matches!(refusal(unreadable, asked()), HabitRepositoryError::Internal));
    assert!(matches!(
        refusal(item("planned"), None),
        HabitRepositoryError::MissedResolutionNotFound(7)
    ));
    assert!(matches!(
        refusal(item("planned"), Some(occurrence(7))),
        HabitRepositoryError::MissedResolutionNotFound(7)
    ));
    let mut advanced = asked();
    advanced.as_mut().unwrap().missed_resolution.as_mut().unwrap().revision = 2;
    assert!(matches!(
        refusal(item("planned"), advanced),
        HabitRepositoryError::RevisionConflict { expected: 1, actual: 2, .. }
    ));
    assert!(matches!(
        refusal(item("planned"), Some(decided(7, HabitMissedResolutionAction::Skip))),
        HabitRepositoryError::MissedResolutionAlreadyResolved(_)
    ));
}

#[test]
fn decisions_are_stored_with_their_occurrence() {
    let first = insert_new_missed_resolution(
        61,
        occurrence(7),
        resolution(7, HabitMissedResolutionAction::DecisionRequired),
        true,
        true,
    )
    .unwrap();
    assert_eq!(first.write.operation_id, 61);
    assert_eq!((first.write.previous_revision, first.write.revision), (0, 1));
    assert_eq!(first.write.columns.action, "decision_required");
    assert_eq!(first.write.audit.operation_type, "habit.missed.resolved");
    assert_eq!(first.write.audit.base_revision, None);
    assert!(first.updated.missed_resolution.is_some());
    let refused = |occurrence: HabitOccurrence, id: u128, valid: bool| {
        let decision = resolution(id, HabitMissedResolutionAction::Skip);
        insert_new_missed_resolution(61, occurrence, decision, valid, true).is_err()
    };
    assert!(refused(occurrence(7), 7, false));
    assert!(refused(occurrence(7), 8, true));
    assert!(refused(decided(7, HabitMissedResolutionAction::Skip), 7, true));

    let next = HabitMissedResolution {
        revision: 2,
        updated_at: LATER,
        ..resolution(7, reduction(44))
    };
    let change =
        update_missed_resolution(62, first.updated, 1, next.clone(), false, true, false, true)
            .unwrap();
    assert_eq!(change.write.columns.suppressed, vec![44]);
    assert_eq!((change.write.previous_revision, change.write.revision), (1, 2));
    assert_eq!(change.write.audit.base_revision, Some(1));
    let allowed = |explicit: bool, valid: bool, explicit_valid: bool| {
        let before = decided(7, HabitMissedResolutionAction::DecisionRequired);
        update_missed_resolution(62, before, 1, next.clone(), explicit, valid, explicit_valid, true)
            .is_ok()
    };
    assert!(allowed(true, false, true));
    assert!(!allowed(false, false, true));
    assert!(!allowed(true, false, false));
    let own = HabitMissedResolution { revision: 2, ..resolution(7, reduction(1_007)) };
    assert!(update_missed_resolution(62, occurrence(7), 1, own, false, true, false, true).is_err());
    assert_eq!(missed_action_name(&HabitMissedResolutionAction::Skip), "skip");
}

#[test]
fn configurations_go_to_the_database_whole() {
    let other = HabitMissedConfiguration { item_revision: 6, is_active: false, ..configuration() };
    let rows = configuration_rows(&BTreeMap::from([(9, other), (3, configuration())])).unwrap();
    let listed: Vec<(u128, i64, bool)> =
        rows.iter().map(|row| (row.habit_id, row.item_revision, row.is_active)).collect();
    assert_eq!(listed, vec![(3, 1, true), (9, 6, false)]);
    let huge = HabitMissedConfiguration { item_revision: u64::MAX, ..configuration() };
    assert!(configuration_rows(&BTreeMap::from([(3, huge)])).is_err());
}

fn evidence_row() -> EvidenceRow {
    EvidenceRow {
        id: 7,
        habit_id: 3,
        planner_occurrence_id: 1_007,
        source_schedule_revision_id: 5,
        source_item_revision: 1,
        policy_fingerprint: vec![0; 32],
        recurrence_identity: Json::Text("daily".to_owned()),
        nominal_start: NOON,
        nominal_end: NOON + HOUR,
        window_start: NOON,
        window_end: NOON + 2 * HOUR,
        local_date: CalendarDate::new(2026, 9, 4).unwrap(),
        timezone_name: "UTC".to_owned(),
        expected_duration_seconds: Some(1_800),
        expected_quantity: None,
        expected_unit: None,
    }
}

fn resolution_row(action: &str, suppressed: Vec<u128>) -> ResolutionRow {
    ResolutionRow {
        revision: 2,
        source_planner_occurrence_id: 1_007,
        configured_policy: "ask".to_owned(),
        action: action.to_owned(),
        cancellation_reason: None,
        cancelled_resume_action: None,
        carry_window_start: None,
        carry_window_end: None,
        suppressed_planner_occurrence_ids: suppressed,
        created_at: NOON,
        updated_at: LATER,
    }
}

#[test]
fn occurrences_are_read_with_what_belongs_to_them() {
    let outcome = OutcomeRow {
        revision: 3,
        status: "partial".to_owned(),
        progress_basis_points: 2_500,
        quantity: None,
        unit: None,
        actual_seconds: Some(60),
        note: None,
        occurred_at: NOON,
        updated_at: NOON,
    };
    let read = occurrence_from_row(
        evidence_row(),
        Some(outcome),
        Some(resolution_row("reduce_frequency", vec![44])),
        true,
    )
    .unwrap();
    assert_eq!(read.evidence.policy_fingerprint, format!("sha256:{}", "00".repeat(32)));
    assert_eq!(read.outcome.unwrap().status, HabitOutcomeStatus::Partial);
    let decision = read.missed_resolution.unwrap();
    assert_eq!((decision.occurrence_evidence_id, decision.habit_id), (7, 3));
    assert_eq!(decision.configured_policy, HabitMissedPolicy::Ask);
    let bare = occurrence_from_row(evidence_row(), None, None, true).unwrap();
    assert!(bare.outcome.is_none() && bare.missed_resolution.is_none());
    assert!(occurrence_from_row(evidence_row(), None, None, false).is_err());
    let own = resolution_row("reduce_frequency", vec![1_007]);
    assert!(occurrence_from_row(evidence_row(), None, Some(own), true).is_err());
    let unknown = resolution_row("vanish", Vec::new());
    assert!(occurrence_from_row(evidence_row(), None, Some(unknown), true).is_err());
    let broken = EvidenceRow { source_item_revision: -1, ..evidence_row() };
    assert!(occurrence_from_row(broken, None, None, true).is_err());
}

#[test]
fn a_schedule_holds_an_occurrence_in_one_state() {
    let recorded = record_occurrence_publication(&None, 4, OccurrenceState::Skipped)
        .unwrap()
        .unwrap();
    assert_eq!((recorded.item_revision, recorded.occurrence_state.as_str()), (4, "skipped"));
    let stored = Some(recorded);
    let again = |revision: u64, state: OccurrenceState| {
        record_occurrence_publication(&stored, revision, state)
    };
    assert!(again(4, OccurrenceState::Skipped).unwrap().is_none());
    assert_eq!(
        again(4, OccurrenceState::Generated).unwrap_err(),
        PublishedHabitEvidenceError::Conflict
    );
    assert_eq!(
        again(5, OccurrenceState::Skipped).unwrap_err(),
        PublishedHabitEvidenceError::Conflict
    );
    let other: Option<PublicationRow> = None;
    assert_eq!(
        record_occurrence_publication(&other, u64::MAX, OccurrenceState::Paused).unwrap_err(),
        PublishedHabitEvidenceError::Invalid
    );
    assert_eq!(occurrence_state_name(OccurrenceState::Generated), "generated");
    assert_eq!(occurrence_state_name(OccurrenceState::Completed), "completed");
}

#[test]
fn receipts_of_passes_are_looked_up_by_their_key() {
    let named = |namespace: &str| HabitIdempotency {
        namespace: namespace.to_owned(),
        key_hash: [1; 32],
        request_fingerprint: [2; 32],
        operation_id: 90,
        actor_session_id: None,
    };
    assert!(searches_ephemeral_by_key(&named("habits.missed.reconcile")));
    assert!(!searches_ephemeral_by_key(&named("habits.outcome")));
    assert!(matches!(receipt_insert_error(true), HabitRepositoryError::IdempotencyConflict));
    assert!(matches!(receipt_insert_error(false), HabitRepositoryError::Internal));
}
