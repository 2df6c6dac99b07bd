use std::collections::BTreeMap;

use base64::Engine as _;
use dayweave_api::documents::{habit_policy_document, HabitPolicyRow};
use dayweave_api::habits::zones::PublishedHabitEvidenceError;
use dayweave_api::items::completion::ItemCompletionState;
use dayweave_api::items::model::{
    DeadlineKind, DurationKind, Item, ItemKind, ItemStatus, SplitPolicy,
};
use dayweave_api::json::{Json, JsonNumber};
use dayweave_api::routines::admission::{
    admission_step, core_instant, new_manifest, publication_step, published_source,
    source_revisions, AdmissionStep, PublishedOccurrence, RoutineOccurrenceAdmission,
};
use dayweave_api::routines::cursors::{decode_cursor, encode_cursor, Cursor};
use dayweave_api::routines::evidence::{
    evidence_for, routine_definition, routine_definition_hash, source_eligible, CurrentEvidence,
    RoutineOccurrenceWorkUnit,
};
use dayweave_api::routines::model::{
    check_size, check_stored_size, read_aggregate, replay_occurrence, ItemCompletionReopenState,
    OccurrenceLimits, OccurrenceReceipt, RoutineOccurrenceAggregate, RoutineOccurrenceError,
    RoutineOccurrenceManifest, RoutineOccurrenceMemberDefinition, RoutineOccurrenceSnapshot,
};
use dayweave_api::routines::pages::{
    check_page_limit, check_page_size, check_pointer, close_page, listed_change, open_page,
    PageDraft, PAGE_BYTES,
};
use dayweave_api::routines::planning::{
    plan_instance, planning_evidence, planning_identities, PlanningBudget,
};
use dayweave_api::time::{DatabaseScope, HOUR};

const NOON: i128 = 1_788_523_200_000_000_000;

const LIMITS: OccurrenceLimits = OccurrenceLimits { members: 10_000, bytes: 8 * 1024 * 1024 };

fn scope() -> DatabaseScope {
    DatabaseScope { workspace_id: 0x67e5_5044_10b1_426f_9247_bb68_0e5f_e0c8, user_id: 2 }
}

fn item(id: u128, parent_id: Option<u128>) -> Item {
    Item {
        id,
        is_sensitive: false,
        kind: if parent_id.is_none() { ItemKind::Routine } else { ItemKind::Task },
        status: ItemStatus::Planned,
        title: "Synthetic retained root".to_owned(),
        notes: None,
        timezone_name: "UTC".to_owned(),
        duration_kind: DurationKind::Unknown,
        duration_seconds: None,
        duration_min_seconds: None,
        duration_max_seconds: None,
        duration_source: None,
        deadline_kind: DeadlineKind::Absent,
        deadline_date: None,
        deadline_at: None,
        deadline_strength: None,
        deadline_soft_weight: None,
        earliest_start_at: None,
        recurrence: if parent_id.is_none() {
            Some(Json::Object(vec![
                ("times_per_day".to_owned(), Json::Number(JsonNumber::Unsigned(1))),
                ("type".to_owned(), Json::Text("daily".to_owned())),
            ]))
        } else {
            None
        },
        constraints: Json::Object(Vec::new()),
        dependencies: Vec::new(),
        has_own_effort: false,
        split_policy: SplitPolicy::Indivisible,
        importance: 1,
        urgency: 1,
        parent_id,
        sibling_order: 0,
        blocked_reason_kind: None,
        blocked_by_item_id: None,
        blocked_reason: None,
        is_executable: true,
        revision: 1,
        created_at: NOON,
        updated_at: NOON,
        completed_at: None,
        deleted_at: None,
    }
}

fn current(items: Vec<Item>) -> CurrentEvidence {
    CurrentEvidence::new(items, 0, &Vec::new(), LIMITS).unwrap()
}

fn manifest(definition_hash: &str, members: &[u128]) -> RoutineOccurrenceManifest {
    RoutineOccurrenceManifest {
        schema_version: 1,
        id: 50_001,
        series_item_id: 1,
        occurrence_id: 0x1000_0000_0000_5000_8000_0000_0000_0001,
        identity: Json::Text("2026-09-10".to_owned()),
        nominal_start: NOON,
        nominal_end: NOON + 24 * HOUR,
        window_start: NOON,
        window_end: NOON + 24 * HOUR,
        timezone_name: "UTC".to_owned(),
        definition_hash: definition_hash.to_owned(),
        members: members
            .iter()
            .map(|id| RoutineOccurrenceMemberDefinition {
                item_id: *id,
                parent_id: None,
                source_revision: 1,
                title: "Synthetic retained root".to_owned(),
                kind: ItemKind::Routine,
                recurs: true,
                sibling_order: 0,
                required_for_parent: true,
                initial_open: ItemCompletionReopenState {
                    status: ItemStatus::Planned,
                    blocked_reason_kind: None,
                    blocked_by_item_id: None,
                    blocked_reason: None,
                },
            })
            .collect(),
    }
}

fn aggregate(definition_hash: &str) -> RoutineOccurrenceAggregate {
    RoutineOccurrenceAggregate {
        manifest: manifest(definition_hash, &[1]),
        revision: 1,
        members: vec![Json::Null],
    }
}

fn snapshot(revision: u64) -> RoutineOccurrenceSnapshot {
    let mut aggregate = aggregate("sha256:00");
    aggregate.revision = revision;
    RoutineOccurrenceSnapshot {
        aggregate,
        evidence_hash: "sha256:11".to_owned(),
        fresh_edit_eligible: true,
    }
}

fn written(document: &Json) -> serde_json::Value {
    match document {
        Json::Null => serde_json::Value::Null,
        Json::Bool(flag) => serde_json::Value::from(*flag),
        Json::Number(JsonNumber::Unsigned(count)) => serde_json::Value::from(*count),
        Json::Number(JsonNumber::Negative(count)) => serde_json::Value::from(*count),
        Json::Number(JsonNumber::Decimal(text)) => serde_json::from_str(text).unwrap(),
        Json::Text(text) => serde_json::Value::from(text.as_str()),
        Json::Array(items) => serde_json::Value::Array(items.iter().map(written).collect()),
        Json::Object(members) => serde_json::Value::Object(
            members.iter().map(|(key, member)| (key.clone(), written(member))).collect(),
        ),
    }
}

#[test]
fn historical_instance_stays_readable_after_current_tree_exceeds_admission_limit() {
    let now = NOON + 132 * HOUR;
    let document = current(vec![item(1, None)]).definition(1, LIMITS).unwrap();
    let definition_hash =
        routine_definition_hash(&serde_json::to_vec(&written(&document)).unwrap());
    let mut aggregate = aggregate(&definition_hash);
    aggregate.manifest.nominal_start = now;
    aggregate.manifest.nominal_end = now + 24 * HOUR;
    aggregate.manifest.window_start = now;
    aggregate.manifest.window_end = now + 24 * HOUR;

    let mut items = vec![item(1, None)];
    for index in 0..LIMITS.members {
        items.push(item(index as u128 + 2, Some(1)));
    }
    let grown = current(items);
    assert_eq!(grown.subtree(1, LIMITS).unwrap_err(), RoutineOccurrenceError::TooLarge);
    assert_eq!(grown.definition(1, LIMITS).unwrap_err(), RoutineOccurrenceError::TooLarge);

    let evidence =
        evidence_for(&aggregate.manifest, &grown, Err(RoutineOccurrenceError::TooLarge)).unwrap();
    let unavailable = routine_definition_hash(&b"dayweave.routine-definition.unavailable.v1".to_vec());
    assert_eq!(evidence.current_definition_hash, unavailable);
    assert_ne!(evidence.current_definition_hash, aggregate.manifest.definition_hash);
    assert_eq!(evidence.sources.len(), 1);
    assert!(evidence.sources[0].eligible);
    assert_eq!(evidence.sources[0].current_revision, Some(1));
    assert!(evidence.live_work_units.is_empty());

    let retained = read_aggregate(50_001, Some(aggregate)).unwrap();
    assert_eq!(retained.manifest.definition_hash, definition_hash);
    assert_eq!(retained.manifest.members.len(), 1);
    let mut budget = PlanningBudget { bytes: 0, members: 0 };
    assert_eq!(
        plan_instance(retained, &evidence, Ok(true), Some(10), &mut budget, LIMITS).unwrap_err(),
        RoutineOccurrenceError::DefinitionChanged
    );
}

#[test]
fn the_definition_of_a_routine_is_one_document() {
    let tree = current(vec![item(1, None), item(2, Some(1))]);
    let document = tree.definition(1, LIMITS).unwrap();
    assert_eq!(
        written(&document).to_string(),
        concat_lines(&[
            "{\"domain\":\"dayweave.routine-definition.v1\",\"members\":[",
            "{\"item_id\":\"00000000-0000-0000-0000-000000000001\",\"kind\":\"routine\",",
            "\"parent_id\":null,\"recurrence\":{\"times_per_day\":1,\"type\":\"daily\"},",
            "\"routine_ordered\":false,\"sibling_order\":0,\"timezone_name\":\"UTC\"},",
            "{\"item_id\":\"00000000-0000-0000-0000-000000000002\",\"kind\":\"task\",",
            "\"parent_id\":\"00000000-0000-0000-0000-000000000001\",\"recurrence\":null,",
            "\"routine_ordered\":false,\"sibling_order\":0,\"timezone_name\":\"UTC\"}],",
            "\"recurrence\":{\"times_per_day\":1,\"type\":\"daily\"},",
            "\"root_id\":\"00000000-0000-0000-0000-000000000001\",\"root_parent_id\":null,",
            "\"timezone_name\":\"UTC\"}",
        ])
    );
    assert_eq!(tree.definition(2, LIMITS).unwrap_err(), RoutineOccurrenceError::SourceIneligible);
    assert_eq!(tree.definition(9, LIMITS).unwrap_err(), RoutineOccurrenceError::OccurrenceMissing);
}

fn concat_lines(lines: &[&str]) -> String {
    lines.concat()
}

#[test]
fn the_policy_of_a_habit_is_one_document() {
    let row = |recurrence: Option<Json>| HabitPolicyRow {
        habit_id: 0x67e5_5044_10b1_426f_9247_bb68_0e5f_e0c8,
        timezone_name: "Europe/Berlin".to_owned(),
        recurrence,
        constraints: Json::Object(Vec::new()),
        duration_kind: "range".to_owned(),
        duration_seconds: None,
        duration_min_seconds: Some(60),
        duration_max_seconds: Some(-1),
        duration_source: Some("user".to_owned()),
        split_allowed: true,
        minimum_chunk_seconds: Some(30),
        maximum_chunk_seconds: None,
    };
    let document = habit_policy_document(&row(Some(Json::Text("daily".to_owned())))).unwrap();
    assert_eq!(
        written(&document).to_string(),
        concat_lines(&[
            "{\"constraints\":{},\"duration\":{\"kind\":\"range\",\"maximum_seconds\":-1,",
            "\"minimum_seconds\":60,\"seconds\":null,\"source\":\"user\"},",
            "\"habit_id\":\"67e55044-10b1-426f-9247-bb680e5fe0c8\",\"recurrence\":\"daily\",",
            "\"schema\":\"dayweave-habit-policy/1\",\"split\":{\"allowed\":true,",
            "\"maximum_seconds\":null,\"minimum_seconds\":30},",
            "\"timezone_name\":\"Europe/Berlin\"}",
        ])
    );
    assert_eq!(
        habit_policy_document(&row(None)).unwrap_err(),
        PublishedHabitEvidenceError::Invalid
    );
}

#[test]
fn several_sessions_on_the_same_work_count_once() {
    let sessions = vec![(2, Some(7)), (1, Some(9)), (2, Some(7)), (1, Some(8)), (2, None)];
    let evidence = CurrentEvidence::new(vec![item(1, None)], 0, &sessions, LIMITS).unwrap();
    let units: Vec<(u128, u128)> = evidence
        .live_work_units
        .iter()
        .map(|unit| (unit.item_id, unit.occurrence_id))
        .collect();
    assert_eq!(units, vec![(1, 8), (1, 9), (2, 7)]);
}

#[test]
fn failures_of_the_storage_are_not_taken_for_a_changed_routine() {
    assert_eq!(
        evidence_for(
            &manifest("sha256:00", &[1]),
            &current(vec![item(1, None)]),
            Err(RoutineOccurrenceError::Unavailable)
        )
        .unwrap_err(),
        RoutineOccurrenceError::Unavailable
    );
}

#[test]
fn a_subtree_holds_what_descends_from_its_root() {
    let tree = current(vec![
        item(5, Some(3)),
        item(1, None),
        item(3, Some(1)),
        item(4, None),
        item(2, Some(1)),
        item(6, Some(4)),
    ]);
    let ids = |root: u128| {
        tree.subtree(root, LIMITS).map(|members| members.iter().map(|m| m.id).collect::<Vec<_>>())
    };
    assert_eq!(ids(1).unwrap(), vec![1, 2, 3, 5]);
    assert_eq!(ids(3).unwrap(), vec![3, 5]);
    assert_eq!(ids(9).unwrap_err(), RoutineOccurrenceError::OccurrenceMissing);

    let small = OccurrenceLimits { members: 3, bytes: 100 };
    assert_eq!(tree.subtree(1, small).unwrap_err(), RoutineOccurrenceError::TooLarge);

    let circle = current(vec![item(1, Some(2)), item(2, Some(1))]);
    assert_eq!(circle.subtree(1, LIMITS).unwrap_err(), RoutineOccurrenceError::Invalid);
}

#[test]
fn a_definition_leaves_out_what_does_not_define_a_routine() {
    let mut root = item(1, None);
    root.constraints =
        Json::Object(vec![("routine_ordered".to_owned(), Json::Bool(true))]);
    let child = item(2, Some(1));
    let definition = routine_definition(&vec![&root, &child], 1).unwrap();
    assert_eq!(definition.root_id, 1);
    assert_eq!(definition.members.len(), 2);
    assert!(definition.members[0].routine_ordered);
    assert!(!definition.members[1].routine_ordered);
    assert_eq!(definition.members[0].parent_id, None);
    assert_eq!(definition.members[1].parent_id, Some(1));

    assert_eq!(
        routine_definition(&vec![&child], 1).unwrap_err(),
        RoutineOccurrenceError::OccurrenceMissing
    );
    assert_eq!(
        routine_definition(&vec![&child], 2).unwrap_err(),
        RoutineOccurrenceError::SourceIneligible
    );
    assert_eq!(
        routine_definition_hash(&b"abc".to_vec()),
        "sha256:ba7816bf8f01cfea414140de5dae2223b00361a396177a9cb410ff61f20015ad"
    );
}

#[test]
fn only_open_items_can_be_taken_up() {
    let mut source = item(1, None);
    for (status, eligible) in [
        (ItemStatus::Inbox, true),
        (ItemStatus::Planned, true),
        (ItemStatus::Blocked, true),
        (ItemStatus::Scheduled, false),
        (ItemStatus::InProgress, false),
        (ItemStatus::Paused, false),
        (ItemStatus::Completed, false),
        (ItemStatus::Skipped, false),
        (ItemStatus::Cancelled, false),
    ] {
        source.status = status;
        assert_eq!(source_eligible(&source), eligible);
    }
}

#[test]
fn sessions_without_an_occurrence_are_on_none() {
    let sessions = vec![(1, Some(7)), (2, None)];
    let evidence = CurrentEvidence::new(vec![item(1, None)], 4, &sessions, LIMITS).unwrap();
    assert_eq!(
        evidence.live_work_units,
        vec![RoutineOccurrenceWorkUnit { item_id: 1, occurrence_id: 7 }]
    );
    assert_eq!(evidence.execution_revision, 4);
    assert_eq!(
        CurrentEvidence::new(Vec::new(), -1, &Vec::new(), LIMITS).unwrap_err(),
        RoutineOccurrenceError::Unavailable
    );
    let few = OccurrenceLimits { members: 1, bytes: 1 };
    assert_eq!(
        CurrentEvidence::new(Vec::new(), 0, &sessions, few).unwrap_err(),
        RoutineOccurrenceError::TooLarge
    );
}

#[test]
fn cursors_are_read_back_by_their_workspace_alone() {
    let other = DatabaseScope { workspace_id: 12, user_id: 2 };
    for (list_head, after) in
        [(None, 0), (Some(0), 0), (Some(40), 17), (None, i64::MAX as u64), (Some(i64::MAX as u64), 1)]
    {
        let cursor = Cursor { workspace: scope().workspace_id, list_head, after };
        let text = encode_cursor(&cursor);
        assert_eq!(decode_cursor(&text, scope()), Ok(cursor));
        assert_eq!(decode_cursor(&text, other), Err(RoutineOccurrenceError::InvalidCursor));
    }
}

#[test]
fn a_cursor_is_a_document_in_base64() {
    let cursor = Cursor { workspace: scope().workspace_id, list_head: Some(40), after: 17 };
    let document =
        "{\"workspace\":\"67e55044-10b1-426f-9247-bb680e5fe0c8\",\"list_head\":40,\"after\":17}";
    let text = format!(
        "DWR1.{}",
        base64::engine::general_purpose::URL_SAFE_NO_PAD.encode(document)
    );
    assert_eq!(encode_cursor(&cursor), text);
    let value: serde_json::Value = serde_json::from_str(document).unwrap();
    assert_eq!(value["after"], 17);
    let open = Cursor { list_head: None, ..cursor };
    let document =
        "{\"workspace\":\"67e55044-10b1-426f-9247-bb680e5fe0c8\",\"list_head\":null,\"after\":17}";
    assert_eq!(
        encode_cursor(&open),
        format!("DWR1.{}", base64::engine::general_purpose::URL_SAFE_NO_PAD.encode(document))
    );
}

#[test]
fn texts_that_no_cursor_is_written_as_are_refused() {
    let encoded = |document: &str| {
        format!("DWR1.{}", base64::engine::general_purpose::URL_SAFE_NO_PAD.encode(document))
    };
    let workspace = "67e55044-10b1-426f-9247-bb680e5fe0c8";
    for text in [
        String::new(),
        "DWR1.".to_owned(),
        "DWR2.e30".to_owned(),
        "DWR1.!!".to_owned(),
        "DWR1.\u{e4}".to_owned(),
        encoded("{}"),
        encoded(&format!("{{\"workspace\":\"{workspace}\",\"list_head\":null,\"after\":017}}")),
        encoded(&format!("{{\"workspace\":\"{workspace}\",\"list_head\":null,\"after\":17 }}")),
        encoded(&format!("{{\"workspace\":\"{workspace}\",\"after\":17,\"list_head\":null}}")),
        encoded(&format!("{{\"workspace\":\"{workspace}\",\"list_head\":null,\"after\":}}")),
        encoded(&format!(
            "{{\"workspace\":\"{workspace}\",\"list_head\":null,\"after\":9223372036854775808}}"
        )),
        encoded(&format!(
            "{{\"workspace\":\"{workspace}\",\"list_head\":9223372036854775808,\"after\":1}}"
        )),
        encoded(&format!(
            "{{\"workspace\":\"{workspace}\",\"list_head\":null,\"after\":99999999999999999999}}"
        )),
        encoded(&"x".repeat(600)),
    ] {
        assert_eq!(decode_cursor(&text, scope()), Err(RoutineOccurrenceError::InvalidCursor));
    }
}

#[test]
fn a_page_begins_where_its_cursor_says() {
    assert!(check_page_limit(0).is_err());
    assert!(check_page_limit(1).is_ok());
    assert!(check_page_limit(100).is_ok());
    assert_eq!(check_page_limit(101), Err(RoutineOccurrenceError::Invalid));

    let first = open_page(None, scope(), 9, true).unwrap();
    assert_eq!((first.place.list_head, first.place.after, first.head), (Some(9), 0, 9));
    let changes = open_page(None, scope(), 9, false).unwrap();
    assert_eq!((changes.place.list_head, changes.head), (None, 9));
    assert_eq!(open_page(None, scope(), -1, false), Err(RoutineOccurrenceError::Unavailable));

    let place = |list_head: Option<u64>, after: u64| {
        encode_cursor(&Cursor { workspace: scope().workspace_id, list_head, after })
    };
    let opened = open_page(Some(&place(Some(5), 3)), scope(), 9, true).unwrap();
    assert_eq!((opened.place.after, opened.head), (3, 5));
    for (list_head, after, list) in [
        (Some(5), 3, false),
        (None, 3, true),
        (None, 10, false),
        (Some(10), 3, true),
        (Some(5), 6, true),
    ] {
        assert_eq!(
            open_page(Some(&place(list_head, after)), scope(), 9, list),
            Err(RoutineOccurrenceError::InvalidCursor)
        );
    }
}

#[test]
fn pages_take_changes_until_they_are_full() {
    let change = |sequence: u64| listed_change(sequence, snapshot(1), 1).unwrap();
    let mut draft = PageDraft::new(3, 3);
    assert!(!draft.has_more);
    assert_eq!(draft.offer(change(1), PAGE_BYTES), Err(RoutineOccurrenceError::TooLarge));
    assert_eq!(draft.offer(change(1), PAGE_BYTES / 2), Ok(true));
    assert_eq!(draft.offer(change(2), PAGE_BYTES / 2), Ok(false));
    assert!(draft.has_more);
    let request = open_page(None, scope(), 9, true).unwrap();
    let page = close_page(draft, request);
    assert_eq!(page.schema_version, 1);
    assert_eq!(page.changes.len(), 1);
    let next = open_page(Some(&page.cursor), scope(), 12, true).unwrap();
    assert_eq!((next.place.after, next.head), (1, 9));

    let mut last = PageDraft::new(1, 3);
    assert_eq!(last.offer(change(8), 100), Ok(true));
    let page = close_page(last, next);
    assert!(!page.has_more);
    let after = open_page(Some(&page.cursor), scope(), 12, false).unwrap();
    assert_eq!((after.place.list_head, after.place.after, after.head), (None, 9, 12));
    assert!(PageDraft::new(4, 3).has_more);
    assert!(check_page_size(PAGE_BYTES).is_ok());
    assert!(check_page_size(PAGE_BYTES + 1).is_err());
}

#[test]
fn an_occurrence_that_moved_on_cannot_be_changed_as_listed() {
    assert!(listed_change(4, snapshot(2), 2).unwrap().occurrence.fresh_edit_eligible);
    assert!(!listed_change(4, snapshot(2), 3).unwrap().occurrence.fresh_edit_eligible);
    assert_eq!(
        listed_change(4, snapshot(2), -3).unwrap_err(),
        RoutineOccurrenceError::Unavailable
    );
    assert_eq!(check_pointer(7, 100), Ok(7));
    assert_eq!(check_pointer(-7, 100), Err(RoutineOccurrenceError::Unavailable));
    assert_eq!(check_pointer(7, PAGE_BYTES as i64 + 1), Err(RoutineOccurrenceError::TooLarge));
}

#[test]
fn identities_are_taken_in_order_and_once() {
    assert_eq!(
        planning_identities(&vec![(3, 1), (1, 9), (1, 2)], LIMITS).unwrap(),
        vec![(1, 2), (1, 9), (3, 1)]
    );
    assert_eq!(
        planning_identities(&vec![(3, 1), (3, 1)], LIMITS),
        Err(RoutineOccurrenceError::Invalid)
    );
    assert_eq!(planning_identities(&vec![(0, 1)], LIMITS), Err(RoutineOccurrenceError::Invalid));
    let few = OccurrenceLimits { members: 1, bytes: 1 };
    assert_eq!(
        planning_identities(&vec![(3, 1), (3, 2)], few),
        Err(RoutineOccurrenceError::TooLarge)
    );
}

#[test]
fn planning_keeps_within_its_budget() {
    let tree = current(vec![item(1, None)]);
    let evidence =
        evidence_for(&manifest("sha256:00", &[1]), &tree, Ok("sha256:00".to_owned())).unwrap();
    let mut budget = PlanningBudget { bytes: 0, members: 0 };
    let instance =
        plan_instance(aggregate("sha256:00"), &evidence, Ok(true), Some(10), &mut budget, LIMITS)
            .unwrap();
    assert_eq!(instance.current_source_revisions, BTreeMap::from([(1, 1)]));
    assert_eq!(budget, PlanningBudget { bytes: 10, members: 1 });
    let plan = |editable, size, budget: &mut PlanningBudget| {
        plan_instance(aggregate("sha256:00"), &evidence, editable, size, budget, LIMITS)
            .unwrap_err()
    };
    assert_eq!(plan(Ok(false), Some(1), &mut budget), RoutineOccurrenceError::SourceIneligible);
    assert_eq!(
        plan(Err(RoutineOccurrenceError::Invalid), Some(1), &mut budget),
        RoutineOccurrenceError::Invalid
    );
    assert_eq!(plan(Ok(true), None, &mut budget), RoutineOccurrenceError::Unavailable);
    assert_eq!(
        plan(Ok(true), Some(LIMITS.bytes), &mut budget),
        RoutineOccurrenceError::TooLarge
    );
    assert_eq!(budget, PlanningBudget { bytes: 10, members: 1 });
    assert_eq!(planning_evidence(vec![instance], 6).unwrap().change_head, 6);
    assert!(planning_evidence(Vec::new(), -6).is_err());

    let mut closed = item(1, None);
    closed.status = ItemStatus::Completed;
    let evidence = evidence_for(
        &manifest("sha256:00", &[1]),
        &current(vec![closed]),
        Ok("sha256:00".to_owned()),
    )
    .unwrap();
    assert_eq!(
        plan_instance(aggregate("sha256:00"), &evidence, Ok(true), Some(1), &mut budget, LIMITS)
            .unwrap_err(),
        RoutineOccurrenceError::SourceIneligible
    );
}

fn published(generated: bool) -> PublishedOccurrence {
    PublishedOccurrence {
        series_item_id: 1,
        occurrence_id: 70,
        identity: Json::Text("2026-09-10".to_owned()),
        generated,
        nominal_start: NOON,
        nominal_end: NOON + HOUR,
        window_start: NOON,
        window_end: NOON + 2 * HOUR,
    }
}

#[test]
fn occurrences_of_a_published_schedule_are_taken_up() {
    let tree = current(vec![item(1, None), item(2, Some(1))]);
    let revisions = BTreeMap::from([(1, 1), (2, 1)]);
    let members = published_source(&tree, 1, &revisions, LIMITS).unwrap().unwrap();
    assert_eq!(source_revisions(&members), vec![(1, 1), (2, 1)]);
    let step = admission_step(
        &members,
        &published(true),
        Ok("sha256:00".to_owned()),
        Ok(None),
        &tree.live_work_units,
    )
    .unwrap();
    let AdmissionStep::Fresh { definition_hash } = step else { panic!("{step:?}") };
    let policies = BTreeMap::from([(
        2,
        ItemCompletionState {
            item_id: 2,
            revision: 1,
            automatic: true,
            required_for_parent: false,
            provenance: None,
            updated_at: None,
            details: Json::Null,
        },
    )]);
    let made =
        new_manifest(80, published(true), &members, definition_hash, &policies).unwrap();
    assert_eq!(made.id, 80);
    assert_eq!(made.timezone_name, "UTC");
    assert!(made.members[0].required_for_parent);
    assert!(!made.members[1].required_for_parent);
    assert_eq!(made.members[0].parent_id, None);
    assert_eq!(made.members[1].parent_id, Some(1));

    let again = admission_step(
        &members,
        &published(false),
        Ok("sha256:00".to_owned()),
        Ok(Some(&made)),
        &tree.live_work_units,
    )
    .unwrap();
    assert!(matches!(again, AdmissionStep::Known { instance_id: 80 }));
    assert_eq!(
        admission_step(
            &members,
            &published(true),
            Ok("sha256:01".to_owned()),
            Ok(Some(&made)),
            &tree.live_work_units,
        )
        .unwrap_err(),
        RoutineOccurrenceError::DefinitionChanged
    );
}

#[test]
fn occurrences_that_were_decided_or_are_worked_on_are_withheld() {
    let tree = current(vec![item(1, None), item(2, Some(1))]);
    let revisions = BTreeMap::from([(1, 1), (2, 1)]);
    let members = published_source(&tree, 1, &revisions, LIMITS).unwrap().unwrap();
    let step = |occurrence: PublishedOccurrence, units: Vec<RoutineOccurrenceWorkUnit>| {
        admission_step(&members, &occurrence, Ok("sha256:00".to_owned()), Ok(None), &units)
            .unwrap()
    };
    assert!(matches!(step(published(false), Vec::new()), AdmissionStep::Withheld));
    let unit = |occurrence_id: u128| RoutineOccurrenceWorkUnit { item_id: 2, occurrence_id };
    assert!(matches!(step(published(true), vec![unit(70)]), AdmissionStep::Withheld));
    assert!(matches!(step(published(true), vec![unit(71)]), AdmissionStep::Fresh { .. }));

    let mut admission = RoutineOccurrenceAdmission::new();
    admission.withhold(9);
    admission.withhold(4);
    admission.withhold(9);
    admission.admit_instance(80);
    assert_eq!(admission.unsupported_root_ids, vec![4, 9]);
    assert_eq!(admission.admitted_instance_ids, vec![80]);
}

#[test]
fn schedules_of_other_revisions_are_stale() {
    let mut task = item(7, Some(1));
    task.parent_id = None;
    let tree = current(vec![item(1, None), item(2, Some(1)), task]);
    let source = |root: u128, revisions: BTreeMap<u128, u64>| {
        published_source(&tree, root, &revisions, LIMITS).map(|members| members.is_some())
    };
    assert_eq!(source(1, BTreeMap::from([(1, 1), (2, 1)])), Ok(true));
    assert_eq!(
        source(1, BTreeMap::from([(1, 1), (2, 2)])),
        Err(RoutineOccurrenceError::EvidenceStale)
    );
    assert_eq!(source(1, BTreeMap::from([(1, 1)])), Err(RoutineOccurrenceError::EvidenceStale));
    assert_eq!(source(7, BTreeMap::new()), Ok(false));
    assert_eq!(source(8, BTreeMap::new()), Err(RoutineOccurrenceError::SourceIneligible));

    let recorded = Json::Text("a".to_owned());
    assert_eq!(publication_step(&None, &recorded), Ok(true));
    assert_eq!(publication_step(&Some(Json::Text("a".to_owned())), &recorded), Ok(false));
    assert_eq!(
        publication_step(&Some(Json::Text("b".to_owned())), &recorded),
        Err(RoutineOccurrenceError::EvidenceStale)
    );
}

#[test]
fn instants_are_kept_to_the_microsecond() {
    assert_eq!(core_instant(NOON + 5_000), Ok(NOON + 5_000));
    assert_eq!(core_instant(NOON + 5_001), Err(RoutineOccurrenceError::Invalid));
    assert_eq!(core_instant(-1_000), Ok(-1_000));
    assert_eq!(core_instant(-1), Err(RoutineOccurrenceError::Invalid));
}

#[test]
fn stored_occurrences_are_checked_when_they_are_read() {
    assert_eq!(check_stored_size(None, LIMITS), Err(RoutineOccurrenceError::OccurrenceMissing));
    assert_eq!(check_stored_size(Some(-1), LIMITS), Err(RoutineOccurrenceError::TooLarge));
    assert_eq!(check_stored_size(Some(100), LIMITS), Ok(()));
    assert_eq!(check_size(LIMITS.bytes + 1, LIMITS), Err(RoutineOccurrenceError::TooLarge));
    assert!(read_aggregate(50_001, Some(aggregate("sha256:00"))).is_ok());
    assert!(read_aggregate(50_002, Some(aggregate("sha256:00"))).is_err());
    assert!(read_aggregate(50_001, None).is_err());
}

#[test]
fn an_operation_is_answered_as_before() {
    let request = Json::Text("complete".to_owned());
    let receipt = |member_id: u128| OccurrenceReceipt {
        instance_id: 1,
        member_id,
        request: Json::Text("complete".to_owned()),
        result: Some(snapshot(2)),
    };
    assert!(replay_occurrence(None, 5, 1, 2, &request).unwrap().is_none());
    let answer = replay_occurrence(Some(receipt(2)), 5, 1, 2, &request).unwrap().unwrap();
    assert!(answer.replayed);
    assert_eq!(answer.occurrence.aggregate.revision, 2);
    assert_eq!(
        replay_occurrence(Some(receipt(3)), 5, 1, 2, &request).unwrap_err(),
        RoutineOccurrenceError::OperationReused
    );
    let unreadable = OccurrenceReceipt { result: None, ..receipt(2) };
    assert_eq!(
        replay_occurrence(Some(unreadable), 5, 1, 2, &request).unwrap_err(),
        RoutineOccurrenceError::Unavailable
    );
}
