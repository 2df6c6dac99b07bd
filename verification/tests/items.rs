use std::collections::BTreeMap;

use dayweave_api::items::bootstrap::{
    begin_capture, check_permitted, decode, open_snapshot, snapshot_changes, snapshot_manifest,
    snapshot_page, snapshot_times, sorted_sequences, BootstrapLimits, ItemBootstrapPosition, ManifestRow,
    SnapshotHeader, SnapshotRow,
};
use dayweave_api::items::commands::{
    apply_item_command, ensure_revision, restore_item_snapshot, trash_single_item, ActiveExecution,
    ChangeKind, ItemOperation, TransactionalGraphMode, TransactionalItemCommand,
};
use dayweave_api::items::completion::{
    check_state_written, completion_error, ensure_legacy_completion_transition, evaluation_cause,
    evaluation_record, execution_evidence, has_qualified_completion, is_qualified, item_error,
    load_completion_states, pack_completion_groups, read_snapshot, replay_completion,
    require_closed_primary_group, restore_completion_semantics, restore_evidence,
    state_effect_record, CompletionDeliveryMode, CompletionReceipt, CompletionStateRow,
    ItemCompletionError, ItemCompletionState, StoredCompletionState,
};
use dayweave_api::items::deltas::{
    check_cursor, delta_fetch_limit, delta_page, selected_group_ids, validate_item_change_group,
    validate_persisted_delta_groups, validate_preview_item_change_group, ChangeGroupLimits,
    DeltaChange, GroupStats, ItemChangeRow, StoredPayload,
};
use dayweave_api::items::dependencies::{
    cleared_successors, dependency_rows, missing_predecessor, sorted_dependencies,
};
use dayweave_api::items::hierarchy::{projected_has_active_children, validate_projected_parent};
use dayweave_api::items::model::{
    ConstraintStrength, DeadlineKind, Dependency, DependencyRelation, DurationKind, Item, ItemKind,
    ItemPolicy, ItemRepositoryError, ItemStatus, SplitPolicy,
};
use dayweave_api::items::names::{
    kind_name, parse_kind, parse_status, split_columns, split_policy, status_name,
};
use dayweave_api::items::progress::{
    progress_from_row, progress_record, replay_progress, ItemProgressError, ItemProgressSnapshot,
    ProgressReceipt, ProgressRow, StoredProgress,
};
use dayweave_api::items::storage::{
    active_execution, event_deduplication_key, item_columns, item_from_row,
    map_dependency_write_error, mutation_record, reserve_idempotency, ItemRow, ItemTombstone, Reservation, ReservationRow,
};
use dayweave_api::json::Json;
use dayweave_api::time::{HOUR, MINUTE};

const NOON: i128 = 1_788_523_200_000_000_000;

fn plain() -> Json {
    Json::Object(Vec::new())
}

fn policy() -> ItemPolicy {
    ItemPolicy {
        executing: vec![ItemStatus::Scheduled, ItemStatus::InProgress, ItemStatus::Paused],
        preventing: vec![ItemStatus::Completed, ItemStatus::Cancelled, ItemStatus::Skipped],
        executable: vec![(ItemKind::Task, false), (ItemKind::Task, true)],
    }
}

fn item(id: u128, parent_id: Option<u128>) -> Item {
    Item {
        id,
        is_sensitive: false,
        kind: ItemKind::Task,
        status: ItemStatus::Planned,
        title: "Write".to_owned(),
        notes: None,
        timezone_name: "UTC".to_owned(),
        duration_kind: DurationKind::Unknown,
        duration_seconds: None,
        duration_min_seconds: None,
        duration_max_seconds: None,
        duration_source: None,
        deadline_kind: DeadlineKind::Absent,
        deadline_date: None,
        deadline_at: None,
        deadline_strength: None,
        deadline_soft_weight: None,
        earliest_start_at: None,
        recurrence: None,
        constraints: plain(),
        dependencies: Vec::new(),
        has_own_effort: false,
        split_policy: SplitPolicy::Indivisible,
        importance: 1,
        urgency: 1,
        parent_id,
        sibling_order: 0,
        blocked_reason_kind: None,
        blocked_by_item_id: None,
        blocked_reason: None,
        is_executable: true,
        revision: 1,
        created_at: NOON,
        updated_at: NOON,
        completed_at: None,
        deleted_at: None,
    }
}

fn items(list: Vec<Item>) -> BTreeMap<u128, Item> {
    list.into_iter().map(|item| (item.id, item)).collect()
}

fn trashed(item: &Item) -> Item {
    let mut next = item.clone();
    next.deleted_at = Some(NOON + MINUTE);
    next.revision += 1;
    next
}

#[test]
fn trashing_an_item_refreshes_its_parent() {
    let tree = items(vec![item(1, None), item(2, Some(1))]);
    let plan = apply_item_command(
        &policy(),
        &tree,
        None,
        TransactionalItemCommand::Trash { item_id: 2, expected_revision: 1 },
        Ok(trashed(&tree[&2])),
        NOON + MINUTE,
        TransactionalGraphMode::Immediate,
    )
    .unwrap();
    assert_eq!(plan.operation, ItemOperation::Trashed);
    assert_eq!(plan.change_kind, ChangeKind::Tombstone);
    assert_eq!(plan.base_revision, Some(1));
    assert_eq!(plan.refreshed_parents, vec![1]);
}

#[test]
fn commands_are_refused_for_what_is_not_there() {
    let tree = items(vec![item(1, None), item(2, Some(1))]);
    let apply = |command: TransactionalItemCommand, outcome: Item| {
        apply_item_command(
            &policy(),
            &tree,
            None,
            command,
            Ok(outcome),
            NOON,
            TransactionalGraphMode::Immediate,
        )
        .unwrap_err()
    };
    assert_eq!(
        apply(
            TransactionalItemCommand::Trash { item_id: 9, expected_revision: 1 },
            item(9, None)
        ),
        ItemRepositoryError::NotFound(9)
    );
    assert_eq!(
        apply(
            TransactionalItemCommand::Trash { item_id: 2, expected_revision: 3 },
            trashed(&tree[&2])
        ),
        ItemRepositoryError::RevisionConflict { expected: 3, actual: 1 }
    );
    assert_eq!(
        apply(
            TransactionalItemCommand::Trash { item_id: 1, expected_revision: 1 },
            trashed(&tree[&1])
        ),
        ItemRepositoryError::HasChildren
    );
    assert_eq!(ensure_revision(&tree[&1], 1), Ok(()));
}

#[test]
fn an_item_that_is_worked_on_stays() {
    let tree = items(vec![item(1, None)]);
    let active = Some(ActiveExecution { session_id: 8, item_id: 1 });
    assert_eq!(
        trash_single_item(&tree, active, 1, 1, Ok(trashed(&tree[&1])), NOON).unwrap_err(),
        ItemRepositoryError::ActiveExecutionConflict { item_id: 1, session_id: 8 }
    );
    assert!(trash_single_item(&tree, None, 1, 1, Ok(trashed(&tree[&1])), NOON).is_ok());
}

#[test]
fn a_snapshot_comes_back_whole() {
    let mut present = item(1, None);
    present.title = "Changed".to_owned();
    present.revision = 4;
    let tree = items(vec![present]);
    let plan = restore_item_snapshot(
        &policy(),
        &tree,
        None,
        1,
        4,
        item(1, None),
        NOON + HOUR,
        TransactionalGraphMode::Immediate,
    )
    .unwrap();
    assert_eq!(plan.item.title, "Write");
    assert_eq!(plan.item.revision, 5);
    assert_eq!(plan.item.updated_at, NOON + HOUR);
}

#[test]
fn an_item_never_becomes_its_own_ancestor() {
    let tree = items(vec![item(1, None), item(2, Some(1)), item(3, Some(2))]);
    let place = |id: u128, parent: Option<u128>| {
        validate_projected_parent(&policy(), &tree, id, parent)
    };
    assert_eq!(place(3, Some(1)), Ok(()));
    assert_eq!(place(1, None), Ok(()));
    assert_eq!(place(1, Some(3)), Err(ItemRepositoryError::HierarchyCycle));
    assert_eq!(place(1, Some(9)), Err(ItemRepositoryError::ParentNotFound(9)));
    assert!(place(1, Some(1)).is_err());
    assert!(projected_has_active_children(1, &tree));
    assert!(!projected_has_active_children(3, &tree));
}

fn predecessor(item_id: u128) -> Dependency {
    Dependency {
        item_id,
        relation: DependencyRelation::FinishToStart,
        minimum_lag: 15,
        strength: ConstraintStrength::Soft { weight: 3 },
    }
}

#[test]
fn predecessors_are_stored_in_order() {
    let sorted = sorted_dependencies(&vec![predecessor(9), predecessor(4)]);
    assert_eq!(sorted.iter().map(|d| d.item_id).collect::<Vec<_>>(), vec![4, 9]);
    let rows = dependency_rows(&sorted).unwrap();
    assert_eq!(rows[1].predecessor_item_id, 9);
    assert_eq!((rows[1].lag_seconds, rows[1].soft_weight), (900, Some(3)));
    assert_eq!(rows[1].projection_ordinal, 1);
    let tree = items(vec![item(4, None)]);
    assert_eq!(missing_predecessor(&tree, 1, &sorted), Some(9));
    assert_eq!(missing_predecessor(&tree, 1, &vec![predecessor(4)]), None);
    assert_eq!(cleared_successors(&vec![5, 2, 5]), vec![2, 5]);
}

fn row(status: &str) -> ItemRow {
    ItemRow {
        id: 1,
        is_sensitive: false,
        kind: "task".to_owned(),
        status: status.to_owned(),
        title: "Write".to_owned(),
        notes: None,
        timezone_name: "UTC".to_owned(),
        duration_kind: "exact".to_owned(),
        duration_seconds: Some(1_800),
        duration_min_seconds: None,
        duration_max_seconds: None,
        duration_source: Some("user".to_owned()),
        deadline_kind: "none".to_owned(),
        deadline_date: None,
        deadline_at: None,
        deadline_strength: None,
        deadline_soft_weight: None,
        earliest_start_at: None,
        recurrence: None,
        constraints: plain(),
        dependencies: Some(vec![predecessor(4)]),
        has_own_effort: true,
        split_allowed: true,
        minimum_chunk_seconds: Some(60),
        maximum_chunk_seconds: Some(600),
        importance: 7,
        urgency: 8,
        parent_item_id: None,
        effective_sibling_order: 2,
        has_children: false,
        blocked_reason_kind: None,
        blocked_by_item_id: None,
        blocked_reason: None,
        revision: 3,
        created_at: NOON,
        updated_at: NOON,
        completed_at: None,
        trashed_at: None,
    }
}

#[test]
fn items_are_read_from_their_columns() {
    let read = item_from_row(&policy(), row("planned")).unwrap();
    assert_eq!((read.kind, read.status), (ItemKind::Task, ItemStatus::Planned));
    assert_eq!((read.importance, read.urgency, read.sibling_order), (7, 8, 2));
    assert_eq!(
        read.split_policy,
        SplitPolicy::Splittable { minimum_chunk_seconds: 60, maximum_chunk_seconds: 600 }
    );
    assert_eq!(read.revision, 3);
    assert!(read.is_executable);
    assert_eq!(item_from_row(&policy(), row("lost")).unwrap_err(), ItemRepositoryError::Internal);
    let negative = ItemRow { importance: -1, ..row("planned") };
    assert_eq!(item_from_row(&policy(), negative).unwrap_err(), ItemRepositoryError::Internal);
    let unread = ItemRow { dependencies: None, ..row("planned") };
    assert!(item_from_row(&policy(), unread).is_err());
}

#[test]
fn what_was_stored_of_an_item_reads_back() {
    let stored = item_from_row(&policy(), row("planned")).unwrap();
    let columns = item_columns(&stored).unwrap();
    assert_eq!((columns.kind, columns.status), ("task", "planned"));
    assert_eq!((columns.importance, columns.urgency), (7, 8));
    assert_eq!(columns.revision, 3);
    let back = ItemRow {
        kind: columns.kind.to_owned(),
        status: columns.status.to_owned(),
        duration_kind: columns.duration_kind.to_owned(),
        duration_seconds: columns.duration_seconds,
        duration_min_seconds: columns.duration_min_seconds,
        duration_max_seconds: columns.duration_max_seconds,
        duration_source: columns.duration_source.map(str::to_owned),
        deadline_kind: columns.deadline_kind.to_owned(),
        deadline_strength: columns.deadline_strength.map(str::to_owned),
        deadline_soft_weight: columns.deadline_soft_weight,
        split_allowed: columns.split_allowed,
        minimum_chunk_seconds: columns.minimum_chunk_seconds,
        maximum_chunk_seconds: columns.maximum_chunk_seconds,
        importance: columns.importance,
        urgency: columns.urgency,
        effective_sibling_order: columns.sibling_order,
        blocked_reason_kind: columns.blocked_reason_kind.map(str::to_owned),
        revision: columns.revision,
        ..row("planned")
    };
    assert!(item_from_row(&policy(), back).unwrap().same(&stored));
    let mut late = stored.clone();
    late.revision = u64::MAX;
    assert_eq!(item_columns(&late).unwrap_err(), ItemRepositoryError::Internal);
}

#[test]
fn stored_item_names_are_read_back() {
    for kind in [
        ItemKind::Event,
        ItemKind::Task,
        ItemKind::Habit,
        ItemKind::Routine,
        ItemKind::Goal,
        ItemKind::Project,
        ItemKind::Break,
    ] {
        assert_eq!(parse_kind(kind_name(kind)).unwrap(), kind);
    }
    for status in [
        ItemStatus::Inbox,
        ItemStatus::Planned,
        ItemStatus::Scheduled,
        ItemStatus::InProgress,
        ItemStatus::Paused,
        ItemStatus::Completed,
        ItemStatus::Skipped,
        ItemStatus::Cancelled,
        ItemStatus::Blocked,
    ] {
        assert_eq!(parse_status(status_name(status)).unwrap(), status);
    }
    let split = SplitPolicy::Splittable { minimum_chunk_seconds: 60, maximum_chunk_seconds: 90 };
    let (allowed, minimum, maximum) = split_columns(&split);
    assert_eq!(split_policy(allowed, minimum, maximum).unwrap(), split);
    assert_eq!(split_policy(false, None, None).unwrap(), SplitPolicy::Indivisible);
}

#[test]
fn changes_are_recorded_with_their_event() {
    let record =
        mutation_record(&item(1, None), ItemOperation::Updated, Some(1), ChangeKind::Upsert)
            .unwrap();
    assert!(record.tombstone.is_none());
    assert_eq!(record.revision, 1);
    assert_eq!(
        record.deduplication_key,
        event_deduplication_key(record.event, 1, 1)
    );
    assert!(record.deduplication_key.contains("00000000-0000-0000-0000-000000000001"));
    assert_eq!(
        map_dependency_write_error(None),
        ItemRepositoryError::Internal
    );
}

#[test]
fn sessions_under_way_are_active_or_paused() {
    assert_eq!(active_execution(None, None).unwrap(), None);
    let session = |state: &str| Some((1, state.to_owned()));
    assert_eq!(
        active_execution(Some(8), session("paused")).unwrap(),
        Some(ActiveExecution { session_id: 8, item_id: 1 })
    );
    assert!(active_execution(Some(8), session("done")).is_err());
    assert!(active_execution(Some(8), None).is_err());
}

#[test]
fn a_creation_is_answered_again_with_its_item() {
    let row = |fingerprint: u8, state: &str| {
        Some(ReservationRow {
            request_fingerprint: vec![fingerprint; 32],
            state: state.to_owned(),
            response: Some(item(1, None)),
        })
    };
    assert!(matches!(reserve_idempotency(&[7; 32], None).unwrap(), Reservation::Acquired));
    assert!(matches!(
        reserve_idempotency(&[7; 32], row(7, "completed")).unwrap(),
        Reservation::Replay(_)
    ));
    assert_eq!(
        reserve_idempotency(&[7; 32], row(8, "completed")).unwrap_err(),
        ItemRepositoryError::IdempotencyConflict
    );
    assert_eq!(
        reserve_idempotency(&[7; 32], row(7, "in_progress")).unwrap_err(),
        ItemRepositoryError::IdempotencyInProgress
    );
}

const LIMITS: ChangeGroupLimits = ChangeGroupLimits { rows: 3, payload_bytes: 4_096 };

#[test]
fn groups_keep_within_their_limits() {
    assert!(validate_item_change_group(3, 4_096, LIMITS).is_ok());
    assert_eq!(
        validate_item_change_group(4, 10, LIMITS),
        Err(ItemRepositoryError::DeltaGroupTooLarge)
    );
    assert!(validate_item_change_group(1, 4_097, LIMITS).is_err());
    assert!(validate_preview_item_change_group(2, 2_048, LIMITS).is_ok());
    assert!(validate_preview_item_change_group(2, 2_049, LIMITS).is_err());
}

fn upsert(sequence: i64) -> ItemChangeRow {
    ItemChangeRow {
        sequence,
        change_kind: "upsert".to_owned(),
        payload: StoredPayload::Item(Box::new(item(1, None))),
    }
}

#[test]
fn groups_are_delivered_whole() {
    let groups = vec![None, Some(5), Some(5), Some(6)];
    assert_eq!(selected_group_ids(&groups), vec![5, 6]);
    let stats = |rows: i64| {
        vec![
            GroupStats { group_id: 5, row_count: rows, payload_bytes: 10, span_row_count: rows },
            GroupStats { group_id: 6, row_count: 1, payload_bytes: 10, span_row_count: 1 },
        ]
    };
    assert!(validate_persisted_delta_groups(&groups, &vec![5, 6], &stats(2), LIMITS).is_ok());
    assert!(validate_persisted_delta_groups(&groups, &vec![5, 6], &stats(9), LIMITS).is_err());
    assert!(check_cursor(4, 9, Some(5), Some(4)).is_ok());
    assert_eq!(
        check_cursor(4, 9, Some(5), Some(5)),
        Err(ItemRepositoryError::InvalidCursor)
    );
    assert_eq!(check_cursor(10, 9, None, None), Err(ItemRepositoryError::InvalidCursor));
    assert_eq!(delta_fetch_limit(10).unwrap(), 11);
    let page = delta_page(0, vec![upsert(1), upsert(2), upsert(3)], 2).unwrap();
    assert_eq!((page.changes.len(), page.watermark, page.has_more), (2, 2, true));
    assert!(matches!(page.changes[0], DeltaChange::Upsert { .. }));
}

#[test]
fn snapshots_are_read_page_by_page() {
    let limits = BootstrapLimits {
        members: 10,
        tickets: 2,
        ttl: 10 * MINUTE,
        trash_retention: 30 * 24 * HOUR,
    };
    assert!(check_permitted(true).is_ok());
    assert!(check_permitted(false).is_err());
    assert_eq!(
        begin_capture(Some(5), 9, &limits).unwrap(),
        Some(ItemBootstrapPosition { snapshot_id: 5, after: 0 })
    );
    assert_eq!(begin_capture(None, 1, &limits).unwrap(), None);
    assert_eq!(
        begin_capture(None, 2, &limits).unwrap_err(),
        ItemRepositoryError::BootstrapCapacity
    );
    let (first, second) = snapshot_times(NOON, &limits);
    assert!(first != second);
    let manifest = snapshot_manifest(
        &vec![
            ManifestRow { sequence: Some(4), payload_bytes: Some(10) },
            ManifestRow { sequence: Some(2), payload_bytes: Some(20) },
        ],
        9,
        &limits,
    )
    .unwrap();
    assert_eq!((manifest.sequences.clone(), manifest.payload_bytes), (vec![4, 2], 30));
    assert_eq!(sorted_sequences(&manifest.sequences), vec![2, 4]);

    let header =
        Some(SnapshotHeader { head_sequence: 9, member_count: 2, expires_at: NOON + HOUR });
    let position = |after: usize| ItemBootstrapPosition { snapshot_id: 5, after };
    assert_eq!(open_snapshot(&header, position(0), NOON).unwrap(), 2);
    assert_eq!(
        open_snapshot(&header, position(0), NOON + 2 * HOUR).unwrap_err(),
        ItemRepositoryError::BootstrapExpired
    );
    assert_eq!(
        open_snapshot(&header, position(3), NOON).unwrap_err(),
        ItemRepositoryError::BootstrapCursorInvalid
    );
    let row = |ordinal: i32| SnapshotRow {
        ordinal,
        item_id: 1,
        item_revision: 1,
        change_kind: "upsert".to_owned(),
        payload: StoredPayload::Item(Box::new(item(1, None))),
    };
    let changes = snapshot_changes(2, 0, vec![row(1), row(2)]).unwrap();
    let page = snapshot_page(&header.unwrap(), position(0), 2, changes, 1).unwrap();
    assert_eq!(page.changes.len(), 1);
    assert_eq!(page.continuation, Some(position(1)));
    assert!(snapshot_changes(2, 0, vec![row(2), row(1)]).is_err());
}

#[test]
fn payloads_are_of_the_item_that_they_are_stored_for() {
    let stored = || StoredPayload::Item(Box::new(item(1, None)));
    assert!(decode("upsert", stored(), 1, 1).is_ok());
    assert!(decode("upsert", stored(), 2, 1).is_err());
    assert!(decode("upsert", stored(), 1, 2).is_err());
    let tombstone = || {
        StoredPayload::Tombstone(ItemTombstone {
            id: 1,
            revision: 2,
            deleted_at: NOON,
            parent_id: None,
        })
    };
    assert!(matches!(
        decode("tombstone", tombstone(), 1, 2).unwrap(),
        DeltaChange::Tombstone { .. }
    ));
    assert!(decode("upsert", tombstone(), 1, 2).is_err());
    assert!(decode("upsert", StoredPayload::Unreadable, 1, 1).is_err());
}

fn progress() -> ItemProgressSnapshot {
    ItemProgressSnapshot::empty(1, 1, plain())
}

#[test]
fn progress_is_kept_with_its_item() {
    let stored = |supported: bool| ProgressRow {
        item_revision: 3,
        progress: Some(StoredProgress {
            revision: 2,
            components: Some(plain()),
            supported,
            updated_at: NOON,
        }),
    };
    let read = progress_from_row(1, Some(stored(true)), plain()).unwrap();
    assert_eq!((read.item_revision, read.revision, read.updated_at), (3, 2, Some(NOON)));
    assert_eq!(
        progress_from_row(1, None, plain()).unwrap_err(),
        ItemProgressError::ItemMissing
    );
    let none = ProgressRow { item_revision: 3, progress: None };
    assert_eq!(progress_from_row(1, Some(none), plain()).unwrap().revision, 0);
    assert!(progress_record(5, 0, 1).unwrap().inserts);
    assert_eq!(progress_record(5, 1, 2).unwrap().base_revision, Some(1));
    let receipt = |item_id: u128| {
        Some(ProgressReceipt { item_id, request: plain(), result: Some(progress()) })
    };
    assert!(replay_progress(receipt(1), 5, 1, &plain()).unwrap().unwrap().replayed);
    assert_eq!(
        replay_progress(receipt(2), 5, 1, &plain()).unwrap_err(),
        ItemProgressError::OperationReused
    );
}

fn state(item_id: u128, revision: u64) -> ItemCompletionState {
    ItemCompletionState {
        item_id,
        revision,
        automatic: true,
        required_for_parent: true,
        provenance: None,
        updated_at: if revision == 0 { None } else { Some(NOON) },
        details: Json::Null,
    }
}

fn completed(item_id: u128) -> ItemCompletionState {
    ItemCompletionState { provenance: Some(plain()), ..state(item_id, 1) }
}

#[test]
fn completion_is_qualified_by_its_provenance() {
    let mut done = item(1, None);
    done.status = ItemStatus::Completed;
    assert!(has_qualified_completion(&done, Some(&completed(1)), true));
    assert!(!has_qualified_completion(&done, Some(&completed(1)), false));
    assert!(!has_qualified_completion(&done, Some(&completed(2)), true));
    assert!(!has_qualified_completion(&done, Some(&state(1, 1)), true));
    assert!(!has_qualified_completion(&done, None, true));
    assert!(!has_qualified_completion(&item(1, None), Some(&completed(1)), true));

    assert_eq!(is_qualified(1, &StoredCompletionState::State(completed(1))), Ok(true));
    assert_eq!(is_qualified(1, &StoredCompletionState::Absent), Ok(false));
    assert_eq!(
        is_qualified(1, &StoredCompletionState::Unsound),
        Err(ItemCompletionError::Unavailable)
    );
}

#[test]
fn completed_items_are_not_reopened_by_the_way() {
    let change = |stored: StoredCompletionState| {
        ensure_legacy_completion_transition(ItemStatus::Completed, ItemStatus::Planned, &stored)
    };
    assert_eq!(change(StoredCompletionState::Absent), Ok(()));
    assert_eq!(change(StoredCompletionState::State(state(1, 1))), Ok(()));
    assert_eq!(
        change(StoredCompletionState::State(completed(1))),
        Err(ItemCompletionError::ReopeningReviewRequired)
    );
    let manual = ItemCompletionState { automatic: false, ..state(1, 1) };
    assert!(change(StoredCompletionState::State(manual)).is_err());
    assert_eq!(change(StoredCompletionState::Unsound), Err(ItemCompletionError::Unavailable));
    assert_eq!(
        ensure_legacy_completion_transition(
            ItemStatus::Planned,
            ItemStatus::Planned,
            &StoredCompletionState::Unsound
        ),
        Ok(())
    );
}

#[test]
fn completion_states_are_loaded_over_the_empty_ones() {
    let empty = || BTreeMap::from([(1, state(1, 0)), (2, state(2, 0))]);
    let stored = |item_id: u128, revision: i64| CompletionStateRow {
        item_id,
        revision,
        updated_at: NOON,
        state: Some(state(item_id, 4)),
    };
    let states = load_completion_states(empty(), vec![stored(2, 4)]).unwrap();
    assert_eq!((states[&1].revision, states[&2].revision), (0, 4));
    assert_eq!(
        load_completion_states(empty(), vec![stored(2, 5)]).unwrap_err(),
        ItemCompletionError::Unavailable
    );
    let unread = CompletionStateRow { state: None, ..stored(2, 4) };
    assert!(load_completion_states(empty(), vec![unread]).is_err());
}

#[test]
fn completions_are_packed_into_groups() {
    let pack = |sizes: Vec<i64>, delivery| pack_completion_groups(&sizes, delivery, LIMITS);
    assert_eq!(pack(Vec::new(), CompletionDeliveryMode::Committed), Ok(Vec::new()));
    assert_eq!(pack(vec![1; 7], CompletionDeliveryMode::Committed), Ok(vec![0, 3, 6]));
    assert_eq!(
        pack(vec![4_000, 97, 1, 4_096], CompletionDeliveryMode::Committed),
        Ok(vec![0, 1, 3])
    );
    assert_eq!(pack(vec![2_000, 2_000], CompletionDeliveryMode::Preview), Ok(vec![0, 1]));
    assert_eq!(
        pack(vec![4_097], CompletionDeliveryMode::Committed),
        Err(ItemCompletionError::TooLarge)
    );
    assert_eq!(
        pack(vec![1, -1], CompletionDeliveryMode::Committed),
        Err(ItemCompletionError::Unavailable)
    );
}

#[test]
fn a_former_completion_comes_back_with_its_item() {
    let before = item(1, None);
    let mut after = item(1, None);
    after.revision = 2;
    let restore = |snapshot: ItemCompletionState, after: &Item, present: &ItemCompletionState| {
        restore_completion_semantics(&before, after, snapshot, Ok(()), present, NOON + 1)
    };
    assert!(restore(state(1, 9), &after, &state(1, 3)).unwrap().is_none());
    let required = ItemCompletionState { required_for_parent: false, ..state(1, 9) };
    let restored = restore(required, &after, &state(1, 3)).unwrap().unwrap();
    assert_eq!((restored.revision, restored.updated_at), (4, Some(NOON)));
    assert!(!restored.required_for_parent);
    assert_eq!(
        restore(completed(1), &after, &state(1, 3)).unwrap_err(),
        ItemCompletionError::ReopeningReviewRequired
    );
    assert_eq!(
        restore(state(2, 9), &after, &state(1, 3)).unwrap_err(),
        ItemCompletionError::Invalid
    );
    assert_eq!(
        restore(state(1, 9), &before, &state(1, 3)).unwrap_err(),
        ItemCompletionError::Invalid
    );
    let full = ItemCompletionState { revision: u64::MAX, ..state(1, 3) };
    let required = ItemCompletionState { required_for_parent: false, ..state(1, 9) };
    assert_eq!(
        restore(required, &after, &full).unwrap_err(),
        ItemCompletionError::Unavailable
    );
    assert_eq!(
        restore_completion_semantics(
            &before,
            &after,
            state(1, 9),
            Err(ItemCompletionError::ParentRequired),
            &state(1, 3),
            NOON
        )
        .unwrap_err(),
        ItemCompletionError::ParentRequired
    );
    assert_eq!(
        restore_evidence(&b"abc".to_vec()),
        "sha256:ba7816bf8f01cfea414140de5dae2223b00361a396177a9cb410ff61f20015ad"
    );
}

#[test]
fn completions_are_written_with_their_revisions() {
    let first = state_effect_record(1, 2, 0, 1).unwrap();
    assert_eq!(first.expected_revision, None);
    let later = state_effect_record(2, 3, 1, 2).unwrap();
    assert_eq!((later.expected_revision, later.completion_revision), (Some(1), 2));
    assert!(state_effect_record(1, 2, 0, u64::MAX).is_err());
    assert_eq!(evaluation_record(3, 2).unwrap().effect_count, 2);
    assert_eq!(
        evaluation_record(3, usize::MAX).unwrap_err(),
        ItemCompletionError::TooLarge
    );
    assert_eq!(check_state_written(1), Ok(()));
    assert!(check_state_written(0).is_err());
    assert_eq!(evaluation_cause(Some(4)), "policy_command");
    assert_eq!(evaluation_cause(None), "canonical_write");
    assert!(require_closed_primary_group(&None).is_ok());
    assert!(require_closed_primary_group(&Some("5".to_owned())).is_err());
    assert_eq!(
        execution_evidence(4, Some(8), Some((1, "active".to_owned()))).unwrap(),
        (4, Some(1))
    );
    assert_eq!(execution_evidence(4, None, None).unwrap(), (4, None));
    assert!(execution_evidence(-4, None, None).is_err());
}

#[test]
fn completion_commands_are_answered_once() {
    let receipt = |item_id: u128| {
        Some(CompletionReceipt { item_id, request: plain(), result: Some(Json::Null) })
    };
    assert!(replay_completion(None, 5, 1, &plain()).unwrap().is_none());
    assert!(replay_completion(receipt(1), 5, 1, &plain()).unwrap().unwrap().replayed);
    assert_eq!(
        replay_completion(receipt(2), 5, 1, &plain()).unwrap_err(),
        ItemCompletionError::OperationReused
    );
    assert_eq!(
        read_snapshot(&vec![2], 1, Ok(Some(Json::Null))).unwrap_err(),
        ItemCompletionError::ItemMissing
    );
    assert!(read_snapshot(&vec![1], 1, Ok(Some(Json::Null))).is_ok());
    assert_eq!(
        read_snapshot(&vec![1], 1, Err(ItemCompletionError::TooLarge)).unwrap_err(),
        ItemCompletionError::TooLarge
    );
}

#[test]
fn refusals_of_completions_and_items_stand_for_each_other() {
    assert_eq!(
        completion_error(ItemCompletionError::TooLarge),
        ItemRepositoryError::DeltaGroupTooLarge
    );
    assert_eq!(
        completion_error(ItemCompletionError::ParentRequired),
        ItemRepositoryError::InvalidParentState
    );
    assert_eq!(
        completion_error(ItemCompletionError::Unavailable),
        ItemRepositoryError::Internal
    );
    assert_eq!(
        item_error(ItemRepositoryError::DeltaGroupTooLarge),
        ItemCompletionError::TooLarge
    );
    assert_eq!(
        item_error(ItemRepositoryError::HasChildren),
        ItemCompletionError::Unavailable
    );
}
