use std::collections::BTreeMap;

use dayweave_api::items::commands::{
    apply_item_command, command_effect, item_before, TransactionalGraphMode,
    TransactionalItemCommand, TransactionalItemEffect,
};
use dayweave_api::items::model::{
    ConstraintStrength, DeadlineKind, DeadlineStrength, Dependency, DependencyRelation,
    DurationKind, Item, ItemKind, ItemPolicy, ItemRepositoryError, ItemStatus, NewItem,
    SplitPolicy,
};
use dayweave_api::json::{Json, JsonNumber};
use dayweave_api::proposals::application::{
    ProposalApplicationStatus, ProposalChangeSetError, ProposalCommand, ProposalConflictCode,
    ProposalImplicitChangeReason, ProposalItemField, ProposalOperation, ProposalPreviewMember,
    ProposalPreviewRequest, ProposalRiskCode, ProposalRiskLevel, ProposalUndoRequest, ReadItem,
};
use dayweave_api::proposals::domain::{
    NewProposal, Proposal, ProposalKind, ProposalSource, ProposalStatus,
};
use dayweave_api::review::applications::{
    accept_proposal, application_header, application_receipt, check_canonical_items, check_review,
    check_review_time, fence_rows, stored_application, undone_mark, validate_stored_preview,
    AppliedMemberRow, ApplicationRow, LockedApplicationRow, StoredApplication, UNDO_TTL,
};
use dayweave_api::review::conflicts::{
    item_conflict, provider_managed_conflicts, reject_provider_managed_items, sorted_conflicts,
};
use dayweave_api::review::decisions::{begin_application, begin_review, begin_undo};
use dayweave_api::review::diffs::{
    affected_preview_item_ids, changed_fields, implicit_item_diffs, item_diff,
};
use dayweave_api::review::errors::{
    change_set_error_message, check_owner, decode_hash, is_constraint_error, is_unique_violation,
    operation_name, parse_application_status, parse_operation, replay_request, request_row,
    validate_idempotency_key, ProposalApplicationError, RequestRow,
};
use dayweave_api::review::hashes::{
    apply_request_hash, canonical_item_hash, undo_request_hash, CanonicalItemRow,
};
use dayweave_api::review::previews::{
    preview_answer, preview_expiry, preview_member_rows, preview_members, preview_row,
    review_content, seal_preview, stored_preview, stored_preview_member, PREVIEW_TTL,
};
use dayweave_api::review::requests::{
    check_active_previews, prepare_change_set, requested_ids, requested_proposals,
    validate_kind_contract, validate_preview_request, ProposalLookup,
};
use dayweave_api::review::risks::{
    classify_deadline_risk_change, maximum_risk, proposal_risks, requires_explicit_approval,
    DeadlineRiskChange, DeadlineRiskShape,
};
use dayweave_api::review::undoing::{
    check_undo, check_undo_request, inverse_command, stored_effect, stored_fence, validate_fences,
    StoredEffect, StoredEffectRow, StoredSnapshot,
};
use dayweave_api::time::{CalendarDate, DatabaseScope, Instant, HOUR, MINUTE};

const NOON: Instant = 1_788_523_200_000_000_000;

fn plain() -> Json {
    Json::Object(Vec::new())
}

fn review_item(id: u128, dependencies: Vec<Dependency>) -> Item {
    Item {
        id,
        is_sensitive: false,
        kind: ItemKind::Task,
        status: ItemStatus::Planned,
        title: "Dependency review fixture".to_owned(),
        notes: None,
        timezone_name: "Europe/Madrid".to_owned(),
        duration_kind: DurationKind::Exact,
        duration_seconds: Some(1_800),
        duration_min_seconds: None,
        duration_max_seconds: None,
        duration_source: None,
        deadline_kind: DeadlineKind::Absent,
        deadline_date: None,
        deadline_at: None,
        deadline_strength: None,
        deadline_soft_weight: None,
        earliest_start_at: None,
        recurrence: None,
        constraints: plain(),
        dependencies,
        has_own_effort: false,
        split_policy: SplitPolicy::Indivisible,
        importance: 50,
        urgency: 50,
        parent_id: None,
        sibling_order: 0,
        blocked_reason_kind: None,
        blocked_by_item_id: None,
        blocked_reason: None,
        is_executable: true,
        revision: 1,
        created_at: NOON,
        updated_at: NOON,
        completed_at: None,
        deleted_at: None,
    }
}

fn predecessor(item_id: u128) -> Dependency {
    Dependency {
        item_id,
        relation: DependencyRelation::FinishToStart,
        minimum_lag: 15,
        strength: ConstraintStrength::Hard,
    }
}

fn new_item_of(item: &Item) -> NewItem {
    NewItem {
        id: item.id,
        is_sensitive: item.is_sensitive,
        kind: item.kind,
        status: item.status,
        title: item.title.clone(),
        notes: item.notes.clone(),
        timezone_name: item.timezone_name.clone(),
        duration_kind: Some(item.duration_kind),
        duration_seconds: item.duration_seconds,
        duration_min_seconds: item.duration_min_seconds,
        duration_max_seconds: item.duration_max_seconds,
        duration_source: item.duration_source,
        deadline_kind: Some(item.deadline_kind),
        deadline_date: item.deadline_date,
        deadline_at: item.deadline_at,
        deadline_strength: item.deadline_strength,
        deadline_soft_weight: item.deadline_soft_weight,
        earliest_start_at: item.earliest_start_at,
        recurrence: None,
        constraints: item.constraints.clone(),
        dependencies: item.dependencies.clone(),
        has_own_effort: Some(item.has_own_effort),
        split_policy: item.split_policy,
        importance: item.importance,
        urgency: item.urgency,
        parent_id: item.parent_id,
        sibling_order: item.sibling_order,
        blocked_reason_kind: item.blocked_reason_kind,
        blocked_by_item_id: item.blocked_by_item_id,
        blocked_reason: item.blocked_reason.clone(),
    }
}

fn random() -> u128 {
    uuid::Uuid::new_v4().as_u128()
}

#[test]
fn dependency_changes_have_a_distinct_diff_field_and_high_risk() {
    let item_id = random();
    let before = review_item(item_id, Vec::new());
    let after = review_item(item_id, vec![predecessor(random())]);

    assert_eq!(
        changed_fields(Some(&before), Some(&after)),
        vec![ProposalItemField::Dependencies],
        "the normalized graph is reviewed separately from other scheduling metadata"
    );

    let command = ProposalCommand::CreateItem { command_id: random(), item: new_item_of(&after) };
    let command_id = command.command_id();
    let target = command.target_item_id();
    let commands = vec![command];
    let risks = proposal_risks(
        &commands,
        &vec![TransactionalItemEffect { before: None, after, execution_ordinal: 0 }],
    );
    let risk = risks
        .iter()
        .find(|risk| risk.code == ProposalRiskCode::ChangesDependencies)
        .expect("dependency changes need an explicit review risk");
    assert_eq!(risk.level, ProposalRiskLevel::High);
    assert!(risk.requires_explicit_approval);
    assert_eq!(risk.command_id, Some(command_id));

    let missing =
        item_conflict(&commands[0], &ItemRepositoryError::DependencyNotFound(random()));
    assert_eq!(missing.code, ProposalConflictCode::DependencyNotFound);
    assert!(missing.summary.contains("predecessor"));
    let cycle = item_conflict(&commands[0], &ItemRepositoryError::DependencyCycle);
    assert_eq!(cycle.code, ProposalConflictCode::DependencyCycle);
    assert!(cycle.summary.contains("cycle"));
    let recurring_boundary = item_conflict(
        &commands[0],
        &ItemRepositoryError::CrossRecurringSubtreeDependency {
            successor_id: target,
            predecessor_id: random(),
        },
    );
    assert_eq!(recurring_boundary.code, ProposalConflictCode::InvalidItem);
    assert!(recurring_boundary.summary.contains("recurring subtree"));
}

#[test]
fn deadline_risk_classification_uses_the_typed_shape_and_partial_order() {
    let first_instant = Some(NOON - 3 * HOUR);
    let second_instant = Some(NOON - 2 * HOUR);
    let no_deadline_before = DeadlineRiskShape::new(
        DeadlineKind::Absent,
        None,
        first_instant,
        Some(DeadlineStrength::Hard),
        None,
    );
    let no_deadline_after = DeadlineRiskShape::new(
        DeadlineKind::Absent,
        None,
        second_instant,
        Some(DeadlineStrength::Soft),
        Some(1),
    );
    assert_eq!(
        classify_deadline_risk_change(&no_deadline_before, &no_deadline_after),
        None,
        "an event interval end is not a deadline when deadline_kind is none"
    );

    let first_date = CalendarDate::new(2026, 9, 4);
    let second_date = CalendarDate::new(2026, 9, 5);
    let hard_first = DeadlineRiskShape::new(
        DeadlineKind::Date,
        first_date,
        None,
        Some(DeadlineStrength::Hard),
        None,
    );
    let hard_second = DeadlineRiskShape::new(
        DeadlineKind::Date,
        second_date,
        None,
        Some(DeadlineStrength::Hard),
        None,
    );
    assert_eq!(
        classify_deadline_risk_change(&hard_first, &hard_second),
        Some(DeadlineRiskChange::Relaxed),
        "a later date-only deadline is a relaxation"
    );
    assert_eq!(
        classify_deadline_risk_change(&hard_second, &hard_first),
        Some(DeadlineRiskChange::Changed),
        "an earlier deadline is a material tightening"
    );

    let soft_high = DeadlineRiskShape::new(
        DeadlineKind::Date,
        first_date,
        None,
        Some(DeadlineStrength::Soft),
        Some(90),
    );
    let soft_low = DeadlineRiskShape::new(
        DeadlineKind::Date,
        first_date,
        None,
        Some(DeadlineStrength::Soft),
        Some(20),
    );
    assert_eq!(
        classify_deadline_risk_change(&soft_high, &soft_low),
        Some(DeadlineRiskChange::Relaxed),
        "lowering a soft-deadline weight is a relaxation"
    );
    assert_eq!(
        classify_deadline_risk_change(&hard_first, &soft_low),
        Some(DeadlineRiskChange::Relaxed),
        "changing a hard deadline to soft is a relaxation"
    );

    let hard_later = DeadlineRiskShape::new(
        DeadlineKind::Date,
        second_date,
        None,
        Some(DeadlineStrength::Hard),
        None,
    );
    assert_eq!(
        classify_deadline_risk_change(&soft_high, &hard_later),
        Some(DeadlineRiskChange::Changed),
        "mixed tightening and relaxation is not mislabeled as a pure relaxation"
    );
}

#[test]
fn an_unchanged_item_has_no_changed_fields() {
    let item = review_item(1, vec![predecessor(2)]);
    assert!(changed_fields(Some(&item), Some(&item.clone())).is_empty());
    let mut renamed = item.clone();
    renamed.title = "Renamed".to_owned();
    renamed.revision = 2;
    assert_eq!(
        changed_fields(Some(&item), Some(&renamed)),
        vec![ProposalItemField::Title, ProposalItemField::Revision]
    );
    assert!(!changed_fields(None, Some(&item)).is_empty());
}

#[test]
fn creations_alone_need_no_approval() {
    let created = review_item(1, Vec::new());
    let commands = vec![ProposalCommand::CreateItem { command_id: 5, item: new_item_of(&created) }];
    let effects =
        vec![TransactionalItemEffect { before: None, after: created, execution_ordinal: 0 }];
    let risks = proposal_risks(&commands, &effects);
    assert_eq!(risks.len(), 1);
    assert_eq!(risks[0].code, ProposalRiskCode::CreatesItem);
    assert_eq!(maximum_risk(&risks), ProposalRiskLevel::Low);
    assert!(!requires_explicit_approval(&risks));
    assert_eq!(maximum_risk(&Vec::new()), ProposalRiskLevel::Low);
}

#[test]
fn trashing_asks_for_approval() {
    let before = review_item(1, Vec::new());
    let mut after = before.clone();
    after.deleted_at = Some(NOON);
    after.revision = 2;
    let commands =
        vec![ProposalCommand::TrashItem { command_id: 5, item_id: 1, expected_revision: 1 }];
    let effects = vec![TransactionalItemEffect {
        before: Some(before),
        after,
        execution_ordinal: 0,
    }];
    let risks = proposal_risks(&commands, &effects);
    assert!(risks.iter().any(|risk| risk.code == ProposalRiskCode::TrashesItem));
    assert!(requires_explicit_approval(&risks));
    let diff = item_diff(&commands[0], &effects[0]);
    assert_eq!(diff.operation, ProposalOperation::TrashItem);
    assert_eq!(
        diff.changed_fields,
        vec![ProposalItemField::Revision, ProposalItemField::DeletedAt]
    );
}

#[test]
fn parents_that_change_along_are_shown_apart() {
    let parent = review_item(1, Vec::new());
    let child = review_item(2, Vec::new());
    let mut refreshed = parent.clone();
    refreshed.is_executable = false;
    refreshed.revision = 2;
    let commands =
        vec![ProposalCommand::TrashItem { command_id: 5, item_id: 2, expected_revision: 1 }];
    let implicit = implicit_item_diffs(
        &vec![parent, child.clone()],
        &vec![refreshed, child],
        &commands,
    );
    assert_eq!(implicit.len(), 1);
    assert_eq!(implicit[0].item_id, 1);
    assert_eq!(implicit[0].reason, ProposalImplicitChangeReason::HierarchyRefresh);
    assert_eq!(affected_preview_item_ids(&commands, &Vec::new(), &implicit), vec![1, 2]);
}

#[test]
fn provider_managed_items_are_left_alone() {
    let commands =
        vec![ProposalCommand::TrashItem { command_id: 5, item_id: 2, expected_revision: 1 }];
    assert!(provider_managed_conflicts(&commands, &Vec::new()).is_empty());
    let conflicts = provider_managed_conflicts(&commands, &vec![2, 3]);
    assert_eq!(conflicts.len(), 2);
    assert_eq!(conflicts[0].code, ProposalConflictCode::ProviderManagedItem);
    assert_eq!((conflicts[0].item_id, conflicts[0].command_id), (Some(2), Some(5)));
    assert_eq!((conflicts[1].item_id, conflicts[1].command_id), (Some(3), None));
    assert!(reject_provider_managed_items(&Vec::new()).is_ok());
    assert!(matches!(
        reject_provider_managed_items(&vec![2]).unwrap_err(),
        ProposalApplicationError::Stale(ProposalConflictCode::ProviderManagedItem)
    ));
}

#[test]
fn conflicts_are_sorted_by_command() {
    let trash = |command_id: u128| ProposalCommand::TrashItem {
        command_id,
        item_id: command_id + 100,
        expected_revision: 1,
    };
    let conflicts = sorted_conflicts(vec![
        item_conflict(&trash(9), &ItemRepositoryError::HasChildren),
        item_conflict(&trash(4), &ItemRepositoryError::HasChildren),
    ]);
    assert_eq!(conflicts[0].command_id, Some(4));
    assert_eq!(conflicts[1].command_id, Some(9));
}

fn member(proposal_id: u128, expected_revision: u64) -> ProposalPreviewMember {
    ProposalPreviewMember { proposal_id, expected_revision }
}

#[test]
fn a_request_names_each_proposal_once() {
    let request = |proposals: Vec<ProposalPreviewMember>| ProposalPreviewRequest { proposals };
    assert!(validate_preview_request(&request(vec![member(1, 1), member(2, 3)])).is_ok());
    assert!(validate_preview_request(&request(Vec::new())).is_err());
    assert!(validate_preview_request(&request(vec![member(1, 1), member(1, 1)])).is_err());
    assert!(validate_preview_request(&request(vec![member(1, 0)])).is_err());
    let many = (1..=21).map(|id| member(id, 1)).collect();
    assert!(validate_preview_request(&request(many)).is_err());
    assert_eq!(requested_ids(&vec![member(7, 1), member(3, 1)]), vec![3, 7]);
    assert!(check_active_previews(99).is_ok());
    assert!(check_active_previews(100).is_err());
}

fn proposal(id: u128, kind: ProposalKind, payload: Json) -> Proposal {
    Proposal::with_id(
        id,
        NewProposal {
            submitted_by: "owner".to_owned(),
            source: ProposalSource::Codex,
            source_reference: None,
            kind,
            title: "Plan".to_owned(),
            explanation: None,
            payload,
            expires_at: NOON + HOUR,
        },
        NOON,
    )
    .unwrap()
}

fn trash_payload(command_id: u128, item_id: u128) -> Json {
    let text = |id: u128| Json::Text(uuid::Uuid::from_u128(id).to_string());
    Json::Object(vec![
        (
            "commands".to_owned(),
            Json::Array(vec![Json::Object(vec![
                ("command_id".to_owned(), text(command_id)),
                ("expected_revision".to_owned(), Json::Number(JsonNumber::Unsigned(1))),
                ("item_id".to_owned(), text(item_id)),
                ("operation".to_owned(), Json::Text("trash_item".to_owned())),
            ])]),
        ),
        ("schema".to_owned(), Json::Text("dayweave.proposal-change-set/1".to_owned())),
    ])
}

#[test]
fn proposals_are_taken_in_the_order_of_the_request() {
    let members = vec![member(7, 1), member(3, 1)];
    let ids = requested_ids(&members);
    let found = requested_proposals(
        &members,
        &ids,
        vec![
            ProposalLookup::Found(proposal(3, ProposalKind::UpdateItem, plain())),
            ProposalLookup::Found(proposal(7, ProposalKind::UpdateItem, plain())),
        ],
    )
    .unwrap();
    assert_eq!(found.iter().map(|proposal| proposal.id).collect::<Vec<_>>(), vec![7, 3]);

    assert!(matches!(
        requested_proposals(
            &members,
            &ids,
            vec![
                ProposalLookup::Missing,
                ProposalLookup::Found(proposal(7, ProposalKind::UpdateItem, plain())),
            ],
        )
        .unwrap_err(),
        ProposalApplicationError::NotFound
    ));
}

#[test]
fn change_sets_of_open_proposals_are_prepared() {
    let first = proposal(1, ProposalKind::UpdateItem, trash_payload(11, 21));
    let second = proposal(2, ProposalKind::UpdateItem, trash_payload(12, 22));
    let commands = prepare_change_set(
        &vec![first, second],
        vec![vec![ReadItem::Absent], vec![ReadItem::Absent]],
        NOON,
    )
    .unwrap();
    assert_eq!(commands.iter().map(|c| c.target_item_id()).collect::<Vec<_>>(), vec![21, 22]);

    let late = proposal(1, ProposalKind::UpdateItem, trash_payload(11, 21));
    assert!(matches!(
        prepare_change_set(&vec![late], vec![vec![ReadItem::Absent]], NOON + 2 * HOUR)
            .unwrap_err(),
        ProposalApplicationError::Stale(ProposalConflictCode::ProposalExpired)
    ));
    let mut decided = proposal(1, ProposalKind::UpdateItem, trash_payload(11, 21));
    decided.status = ProposalStatus::Rejected;
    assert!(matches!(
        prepare_change_set(&vec![decided], vec![vec![ReadItem::Absent]], NOON).unwrap_err(),
        ProposalApplicationError::Stale(ProposalConflictCode::ProposalNotPending)
    ));
}

#[test]
fn the_kind_of_a_proposal_limits_its_commands() {
    let trash =
        vec![ProposalCommand::TrashItem { command_id: 5, item_id: 2, expected_revision: 1 }];
    let create = vec![ProposalCommand::CreateItem {
        command_id: 5,
        item: new_item_of(&review_item(2, Vec::new())),
    }];
    assert!(validate_kind_contract(ProposalKind::CreateItem, &create).is_ok());
    assert!(validate_kind_contract(ProposalKind::CreateItem, &trash).is_err());
    assert!(validate_kind_contract(ProposalKind::UpdateItem, &trash).is_ok());
    assert!(validate_kind_contract(ProposalKind::UpdateItem, &create).is_err());
}

fn scope() -> DatabaseScope {
    DatabaseScope { workspace_id: 40, user_id: 41 }
}

#[test]
fn a_review_is_bound_to_what_was_reviewed() {
    let proposals = vec![proposal(1, ProposalKind::UpdateItem, trash_payload(11, 21))];
    let commands =
        vec![ProposalCommand::TrashItem { command_id: 11, item_id: 21, expected_revision: 1 }];
    let members =
        preview_members(&proposals, &vec![Some(b"payload".to_vec())]).unwrap();
    let expires_at = preview_expiry(&proposals, NOON).unwrap();
    assert_eq!(expires_at, NOON + PREVIEW_TTL);
    let sealed = seal_preview(
        9,
        scope(),
        &members,
        1,
        &b"commands".to_vec(),
        [3; 32],
        &b"content".to_vec(),
        true,
        NOON,
        expires_at,
    );
    let check = |commands_document: &[u8], scope: DatabaseScope| {
        validate_stored_preview(
            &sealed,
            scope,
            &members,
            &proposals,
            &commands,
            &commands_document.to_vec(),
        )
    };
    assert!(check(b"commands", scope()).is_ok());
    assert!(check(b"other commands", scope()).is_err());
    assert!(check(b"commands", DatabaseScope { workspace_id: 40, user_id: 42 }).is_err());

    let mut row = preview_row(&sealed).unwrap();
    assert_eq!((row.proposal_count, row.command_count), (1, 1));
    row.created_at = row.created_at / 1_000 * 1_000;
    row.expires_at = row.expires_at / 1_000 * 1_000;
    let read = stored_preview(Some(row)).unwrap();
    let read_members: Vec<_> = preview_member_rows(&members)
        .unwrap()
        .into_iter()
        .map(|member| stored_preview_member(member).unwrap())
        .collect();
    assert!(validate_stored_preview(
        &read,
        scope(),
        &read_members,
        &proposals,
        &commands,
        &b"commands".to_vec(),
    )
    .is_ok());
    let mut crowded = sealed;
    crowded.command_count = 40_000;
    assert!(matches!(preview_row(&crowded), Err(ProposalApplicationError::Internal)));

    assert!(check_review(&sealed, &sealed.preview_hash).is_ok());
    assert!(matches!(
        check_review(&sealed, &[0; 32]).unwrap_err(),
        ProposalApplicationError::Stale(ProposalConflictCode::PreviewMismatch)
    ));
    assert!(check_review_time(&sealed, NOON).is_ok());
    assert!(matches!(
        check_review_time(&sealed, expires_at).unwrap_err(),
        ProposalApplicationError::Stale(ProposalConflictCode::PreviewExpired)
    ));
    assert!(check_canonical_items(&sealed, &[3; 32]).is_ok());
    assert!(check_canonical_items(&sealed, &[4; 32]).is_err());
}

#[test]
fn the_answer_shows_the_review_and_its_hash() {
    let created = review_item(21, Vec::new());
    let commands = vec![ProposalCommand::CreateItem { command_id: 11, item: new_item_of(&created) }];
    let effects =
        vec![TransactionalItemEffect { before: None, after: created, execution_ordinal: 0 }];
    let content = review_content(&commands, &effects, Vec::new(), Vec::new());
    assert!(content.can_apply);
    assert_eq!(content.command_ids, vec![11]);
    let sealed = seal_preview(
        9,
        scope(),
        &Vec::new(),
        1,
        &b"commands".to_vec(),
        [3; 32],
        &b"content".to_vec(),
        true,
        NOON,
        NOON + PREVIEW_TTL,
    );
    let answer = preview_answer(&sealed, vec![member(1, 1)], content);
    assert_eq!(answer.preview_id, 9);
    assert!(answer.review_hash.starts_with("sha256:"));
    assert_eq!(decode_hash(&answer.review_hash).unwrap(), sealed.preview_hash);
}

#[test]
fn requests_that_differ_have_other_hashes() {
    assert_ne!(apply_request_hash(1, &[1; 32]), apply_request_hash(1, &[2; 32]));
    assert_ne!(apply_request_hash(1, &[1; 32]), apply_request_hash(2, &[1; 32]));
    assert_ne!(undo_request_hash(1, 1), undo_request_hash(1, 2));
    let rows = |revision: i64| vec![CanonicalItemRow { id: 5, revision, deleted: false }];
    assert_ne!(
        canonical_item_hash(40, &rows(1), &Vec::new()),
        canonical_item_hash(40, &rows(2), &Vec::new())
    );
    assert_ne!(
        canonical_item_hash(40, &rows(1), &Vec::new()),
        canonical_item_hash(40, &rows(1), &vec![5])
    );
}

#[test]
fn a_request_is_answered_again_only_if_it_is_the_same() {
    let row = || Some(RequestRow { request_hash: vec![7; 32], application_id: 3 });
    assert_eq!(replay_request(None, &[7; 32]).unwrap(), None);
    assert_eq!(replay_request(row(), &[7; 32]).unwrap(), Some(3));
    assert!(matches!(
        replay_request(row(), &[8; 32]).unwrap_err(),
        ProposalApplicationError::IdempotencyConflict
    ));
}

#[test]
fn an_application_moves_every_proposal_on() {
    let header = application_header(2, 3, NOON).unwrap();
    assert_eq!((header.effect_count, header.fence_count), (2, 3));
    assert_eq!(header.undo_expires_at, NOON + UNDO_TTL);
    let accepted =
        accept_proposal(&proposal(6, ProposalKind::UpdateItem, plain()), NOON + MINUTE).unwrap();
    assert_eq!((accepted.base_revision, accepted.revision), (1, 2));
    let fences = fence_rows(&vec![review_item(5, Vec::new())]).unwrap();
    assert_eq!(
        (fences[0].item_id, fences[0].applied_revision, fences[0].applied_deleted),
        (5, 1, false)
    );
}

fn applied() -> StoredApplication {
    stored_application(Some(LockedApplicationRow {
        status: "applied".to_owned(),
        revision: 1,
        effect_count: 1,
        fence_count: 1,
        undo_expires_at: NOON + UNDO_TTL,
    }))
    .unwrap()
}

#[test]
fn an_application_is_undone_once_and_in_time() {
    let request = ProposalUndoRequest { expected_application_revision: 1 };
    assert!(check_undo_request(&request).is_ok());
    assert!(check_undo_request(&ProposalUndoRequest { expected_application_revision: 0 }).is_err());
    assert!(check_undo(&applied(), &request, NOON).is_ok());
    assert!(matches!(
        check_undo(&applied(), &request, NOON + UNDO_TTL).unwrap_err(),
        ProposalApplicationError::Stale(ProposalConflictCode::UndoExpired)
    ));
    let undone = StoredApplication {
        status: ProposalApplicationStatus::Undone,
        revision: 2,
        ..applied()
    };
    assert!(check_undo(&undone, &request, NOON).is_err());
}

#[test]
fn undoing_needs_items_as_they_were_left() {
    let fences = vec![stored_fence(5, 1, false).unwrap()];
    assert!(validate_fences(&fences, &vec![review_item(5, Vec::new())]).is_ok());
    let mut moved_on = review_item(5, Vec::new());
    moved_on.revision = 2;
    assert!(matches!(
        validate_fences(&fences, &vec![moved_on]).unwrap_err(),
        ProposalApplicationError::Stale(ProposalConflictCode::UndoDiverged)
    ));
    assert!(stored_fence(5, -1, false).is_err());
}

#[test]
fn undoing_goes_back_to_the_former_state() {
    let created =
        StoredEffect { operation: ProposalOperation::CreateItem, item_id: 5, before: None };
    assert!(matches!(
        inverse_command(created, 3).unwrap(),
        TransactionalItemCommand::Trash { item_id: 5, expected_revision: 3 }
    ));
    let replaced = StoredEffect {
        operation: ProposalOperation::ReplaceItem,
        item_id: 5,
        before: Some(review_item(5, Vec::new())),
    };
    match inverse_command(replaced, 3).unwrap() {
        TransactionalItemCommand::RestoreSnapshot { item_id, expected_revision, snapshot } => {
            assert_eq!((item_id, expected_revision), (5, 3));
            assert_eq!(snapshot.title, "Dependency review fixture");
        }
        other => panic!("{other:?}"),
    }
}

#[test]
fn a_whole_application_is_taken_back() {
    let policy = ItemPolicy { executing: Vec::new(), preventing: Vec::new(), executable: Vec::new() };
    let mut parent = review_item(5, Vec::new());
    parent.title = "Parent".to_owned();
    let initial: BTreeMap<u128, Item> = [(5, parent.clone()), (6, review_item(6, Vec::new()))].into();

    let mut changed = review_item(6, Vec::new());
    changed.title = "Changed".to_owned();
    changed.parent_id = Some(5);
    changed.revision = 2;
    let mut created = review_item(7, Vec::new());
    created.parent_id = Some(6);
    let mut items = initial.clone();
    items.insert(6, changed);
    items.insert(7, created);

    let effects = vec![
        StoredEffect { operation: ProposalOperation::CreateItem, item_id: 7, before: None },
        StoredEffect {
            operation: ProposalOperation::ReplaceItem,
            item_id: 6,
            before: Some(initial[&6].clone()),
        },
    ];
    for effect in effects {
        let current = items[&effect.item_id].clone();
        let mut thrown = current.clone();
        thrown.deleted_at = Some(NOON);
        thrown.revision = current.revision + 1;
        let command = inverse_command(effect, current.revision).unwrap();
        let before = item_before(&command, &items);
        let plan = apply_item_command(
            &policy,
            &items,
            None,
            command,
            Ok(thrown),
            NOON,
            TransactionalGraphMode::Deferred,
        )
        .unwrap();
        let effect = command_effect(before, plan.item);
        assert_eq!(effect.before.unwrap().revision, current.revision);
        assert_eq!(effect.execution_ordinal, 0);
        items.insert(effect.after.id, effect.after);
    }
    assert_eq!(items[&6].title, initial[&6].title);
    assert_eq!((items[&6].parent_id, items[&6].revision), (None, 3));
    assert!(items[&7].deleted_at.is_some());
    assert_eq!((items[&5].title.as_str(), items[&5].revision), ("Parent", 1));

    let hash = undo_request_hash(8, 1);
    let stored = || Some(request_row(&hash, 8));
    assert_eq!(replay_request(stored(), &hash).unwrap(), Some(8));
    assert!(replay_request(stored(), &undo_request_hash(8, 2)).is_err());
    let mark = undone_mark(NOON + MINUTE);
    let receipt = application_receipt(
        8,
        Some(ApplicationRow {
            status: mark.status.to_owned(),
            revision: mark.revision,
            applied_at: NOON,
            undo_expires_at: NOON + UNDO_TTL,
            undone_at: Some(mark.undone_at),
        }),
        &Vec::new(),
        vec![11],
        vec![6, 7],
    )
    .unwrap();
    assert_eq!(receipt.status, ProposalApplicationStatus::Undone);
    assert_eq!((receipt.application_revision, receipt.undone_at), (2, Some(NOON + MINUTE)));
}

#[test]
fn a_stored_effect_is_read_only_with_its_hash() {
    let document = b"snapshot".to_vec();
    let row = |hash: [u8; 32]| StoredEffectRow {
        operation: "replace_item".to_owned(),
        item_id: 5,
        before: StoredSnapshot::Item {
            item: review_item(5, Vec::new()),
            document: document.clone(),
        },
        before_hash: Some(hash.to_vec()),
    };
    let hash = dayweave_api::review::hashes::snapshot_hash(&document);
    assert!(stored_effect(row(hash)).is_ok());
    assert!(stored_effect(row([0; 32])).is_err());
}

#[test]
fn a_receipt_tells_what_was_applied() {
    let receipt = application_receipt(
        8,
        Some(ApplicationRow {
            status: "applied".to_owned(),
            revision: 1,
            applied_at: NOON,
            undo_expires_at: NOON + UNDO_TTL,
            undone_at: None,
        }),
        &vec![AppliedMemberRow { proposal_id: 1, proposal_revision: 2 }],
        vec![11],
        vec![21],
    )
    .unwrap();
    assert_eq!(receipt.status, ProposalApplicationStatus::Applied);
    assert_eq!(receipt.proposals[0].applied_revision, 3);
    assert!(matches!(
        application_receipt(8, None, &Vec::new(), Vec::new(), Vec::new()).unwrap_err(),
        ProposalApplicationError::NotFound
    ));
}

#[test]
fn stored_words_are_read_back() {
    for operation in [
        ProposalOperation::CreateItem,
        ProposalOperation::ReplaceItem,
        ProposalOperation::TrashItem,
        ProposalOperation::RestoreItem,
    ] {
        assert_eq!(parse_operation(operation_name(operation)).unwrap(), operation);
    }
    assert!(parse_operation("drop_item").is_err());
    assert_eq!(
        parse_application_status("undone").unwrap(),
        ProposalApplicationStatus::Undone
    );
    assert!(parse_application_status("gone").is_err());
    assert!(is_unique_violation(Some("23505")));
    assert!(!is_unique_violation(Some("23503")));
    assert!(is_constraint_error(Some("23503")));
    assert!(is_constraint_error(Some("23514")));
    assert!(!is_constraint_error(None));
    assert!(check_owner(Some(true)).is_ok());
    assert!(matches!(
        check_owner(None).unwrap_err(),
        ProposalApplicationError::OwnerUnavailable
    ));
}

#[test]
fn keys_and_hashes_have_a_form() {
    assert!(validate_idempotency_key("12345678").is_ok());
    assert!(validate_idempotency_key("").is_err());
    assert!(validate_idempotency_key(&"k".repeat(300)).is_err());
    let hash = format!("sha256:{}", "ab".repeat(32));
    assert_eq!(decode_hash(&hash).unwrap(), [0xab; 32]);
    assert!(decode_hash("sha256:abc").is_err());
    assert!(decode_hash(&"ab".repeat(32)).is_err());
    assert!(change_set_error_message(ProposalChangeSetError::TooManyCommands { maximum: 100 })
        .contains("100"));
}

fn absent(count: usize) -> Vec<Vec<ReadItem>> {
    (0..count).map(|_| vec![ReadItem::Absent]).collect()
}

fn updating(id: u128) -> Proposal {
    proposal(id, ProposalKind::UpdateItem, trash_payload(id + 100, id + 200))
}

#[test]
fn a_review_begins_with_open_proposals_in_the_order_of_the_request() {
    let request = ProposalPreviewRequest { proposals: vec![member(9, 1), member(4, 1)] };
    let ids = requested_ids(&request.proposals);
    assert_eq!(ids, vec![4, 9]);
    let begin = |lookups: Vec<ProposalLookup>, active: i64, now: Instant| {
        begin_review(&request, active, &ids, lookups, absent(2), now)
    };
    let found = || vec![ProposalLookup::Found(updating(4)), ProposalLookup::Found(updating(9))];
    let (set, expires_at) = begin(found(), 3, NOON).unwrap();
    let order: Vec<u128> = set.proposals.iter().map(|proposal| proposal.id).collect();
    assert_eq!(order, vec![9, 4]);
    let targets: Vec<u128> = set.commands.iter().map(|command| command.target_item_id()).collect();
    assert_eq!(targets, vec![209, 204]);
    assert_eq!(expires_at, NOON + PREVIEW_TTL);
    let (_, soon) = begin(found(), 3, NOON + HOUR - MINUTE).unwrap();
    assert_eq!(soon, NOON + HOUR);
    assert!(matches!(
        begin(found(), 100, NOON).unwrap_err(),
        ProposalApplicationError::Validation(_)
    ));
    assert!(matches!(
        begin(vec![ProposalLookup::Missing, ProposalLookup::Found(updating(9))], 3, NOON)
            .unwrap_err(),
        ProposalApplicationError::NotFound
    ));
    assert!(matches!(
        begin(found(), 3, NOON + HOUR).unwrap_err(),
        ProposalApplicationError::Stale(ProposalConflictCode::ProposalExpired)
    ));
    let twice = ProposalPreviewRequest { proposals: vec![member(4, 1), member(4, 1)] };
    assert!(matches!(
        begin_review(&twice, 0, &vec![4], vec![ProposalLookup::Missing], absent(2), NOON)
            .unwrap_err(),
        ProposalApplicationError::Validation(_)
    ));
}

#[test]
fn an_application_begins_with_what_was_reviewed() {
    let documents = || vec![Some(b"first".to_vec()), Some(b"second".to_vec())];
    let reviewed = vec![updating(4), updating(9)];
    let members = preview_members(&reviewed, &documents()).unwrap();
    let sealed = seal_preview(
        50,
        scope(),
        &members,
        2,
        &b"commands".to_vec(),
        [3; 32],
        &b"content".to_vec(),
        true,
        NOON,
        NOON + 10 * MINUTE,
    );
    let expected = sealed.preview_hash;
    let begin = |lookups: Vec<ProposalLookup>,
                 documents: Vec<Option<Vec<u8>>>,
                 hash: [u8; 32],
                 now: Instant| {
        begin_application(
            &sealed,
            &hash,
            &members,
            &vec![4, 9],
            lookups,
            &documents,
            absent(2),
            now,
        )
    };
    let found = || vec![ProposalLookup::Found(updating(4)), ProposalLookup::Found(updating(9))];
    let set = begin(found(), documents(), expected, NOON).unwrap();
    assert_eq!((set.proposals.len(), set.commands.len()), (2, 2));
    assert!(matches!(
        begin(found(), documents(), [0; 32], NOON).unwrap_err(),
        ProposalApplicationError::Stale(ProposalConflictCode::PreviewMismatch)
    ));
    assert!(matches!(
        begin(found(), documents(), expected, NOON + 10 * MINUTE).unwrap_err(),
        ProposalApplicationError::Stale(ProposalConflictCode::PreviewExpired)
    ));
    let edited = vec![Some(b"first".to_vec()), Some(b"other".to_vec())];
    assert!(matches!(
        begin(found(), edited, expected, NOON).unwrap_err(),
        ProposalApplicationError::Stale(ProposalConflictCode::ProposalRevisionMismatch)
    ));
    let mut decided = updating(9);
    decided.status = ProposalStatus::Rejected;
    assert!(matches!(
        begin(
            vec![ProposalLookup::Found(updating(4)), ProposalLookup::Found(decided)],
            documents(),
            expected,
            NOON
        )
        .unwrap_err(),
        ProposalApplicationError::Stale(ProposalConflictCode::ProposalNotPending)
    ));
    let mut advanced = updating(9);
    advanced.revision = 2;
    assert!(matches!(
        begin(
            vec![ProposalLookup::Found(updating(4)), ProposalLookup::Found(advanced)],
            documents(),
            expected,
            NOON
        )
        .unwrap_err(),
        ProposalApplicationError::RevisionConflict { expected: 1, actual: 2 }
    ));
}

#[test]
fn undoing_begins_with_an_application_that_stands() {
    let row = |status: &str| {
        Some(LockedApplicationRow {
            status: status.to_owned(),
            revision: 1,
            effect_count: 2,
            fence_count: 1,
            undo_expires_at: NOON + HOUR,
        })
    };
    let request = ProposalUndoRequest { expected_application_revision: 1 };
    let left = vec![review_item(5, Vec::new())];
    let fences = vec![stored_fence(5, 1, false).unwrap()];
    let begin = |row: Option<LockedApplicationRow>, items: &Vec<Item>, managed: Vec<u128>| {
        begin_undo(row, &request, NOON, &fences, items, &managed)
    };
    let application = begin(row("applied"), &left, Vec::new()).unwrap();
    assert_eq!((application.effect_count, application.fence_count), (2, 1));
    assert!(matches!(
        begin(None, &left, Vec::new()).unwrap_err(),
        ProposalApplicationError::NotFound
    ));
    assert!(matches!(
        begin(row("vanished"), &left, Vec::new()).unwrap_err(),
        ProposalApplicationError::Internal
    ));
    assert!(matches!(
        begin(row("undone"), &Vec::new(), Vec::new()).unwrap_err(),
        ProposalApplicationError::Stale(ProposalConflictCode::AlreadyApplied)
    ));
    assert!(matches!(
        begin(row("applied"), &Vec::new(), Vec::new()).unwrap_err(),
        ProposalApplicationError::NotFound
    ));
    assert!(matches!(
        begin(row("applied"), &left, vec![5]).unwrap_err(),
        ProposalApplicationError::Stale(ProposalConflictCode::ProviderManagedItem)
    ));
}
