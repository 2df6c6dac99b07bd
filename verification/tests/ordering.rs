use std::collections::{BTreeMap, BTreeSet};

use dayweave_api::items::model::{
    ConstraintStrength, DeadlineKind, Dependency, DependencyRelation, DurationKind, Item, ItemKind,
    ItemPolicy, ItemRepositoryError, ItemStatus, NewItem, ReplaceItem, SplitPolicy,
};
use dayweave_api::items::batch::{command_execution_order, CommandBatch};
use dayweave_api::items::commands::TransactionalGraphMode;
use dayweave_api::items::ordering::order_error_can_be_resolved;
use dayweave_api::items::projection::{
    batch_graph_mode, command_prerequisites, project_command_for_ordering, projected_batch_state,
    validate_initial_command_fences,
};
use dayweave_api::json::Json;
use dayweave_api::proposals::application::{ProposalCommand, ProposalConflictCode};
use dayweave_api::review::simulation::{graph_conflict, simulated_effects, simulation_order};
use dayweave_api::review::undoing::undo_trial_order;

const NOON: i128 = 1_788_523_200_000_000_000;

fn policy() -> ItemPolicy {
    ItemPolicy {
        executing: vec![ItemStatus::Scheduled, ItemStatus::InProgress, ItemStatus::Paused],
        preventing: vec![ItemStatus::Completed, ItemStatus::Cancelled, ItemStatus::Skipped],
        executable: vec![
            (ItemKind::Task, false),
            (ItemKind::Task, true),
            (ItemKind::Habit, false),
            (ItemKind::Habit, true),
        ],
    }
}

fn ordered_routine() -> Json {
    Json::Object(vec![("routine_ordered".to_owned(), Json::Bool(true))])
}

fn plain() -> Json {
    Json::Object(Vec::new())
}

fn dependencies(predecessors: &[u128]) -> Vec<Dependency> {
    predecessors
        .iter()
        .map(|item_id| Dependency {
            item_id: *item_id,
            relation: DependencyRelation::FinishToStart,
            minimum_lag: 15,
            strength: ConstraintStrength::Hard,
        })
        .collect()
}

fn hierarchy_review_item(
    id: u128,
    kind: ItemKind,
    status: ItemStatus,
    parent_id: Option<u128>,
    sibling_order: u32,
    constraints: Json,
    dependencies: Vec<Dependency>,
) -> Item {
    Item {
        id,
        is_sensitive: false,
        kind,
        status,
        title: format!("Hierarchy ordering fixture {id}"),
        notes: None,
        timezone_name: "Europe/Madrid".to_owned(),
        duration_kind: DurationKind::Exact,
        duration_seconds: Some(1_800),
        duration_min_seconds: None,
        duration_max_seconds: None,
        duration_source: None,
        deadline_kind: DeadlineKind::Absent,
        deadline_date: None,
        deadline_at: None,
        deadline_strength: None,
        deadline_soft_weight: None,
        earliest_start_at: None,
        recurrence: None,
        constraints,
        dependencies,
        has_own_effort: false,
        split_policy: SplitPolicy::Indivisible,
        importance: 50,
        urgency: 50,
        parent_id,
        sibling_order,
        blocked_reason_kind: None,
        blocked_by_item_id: None,
        blocked_reason: None,
        is_executable: false,
        revision: 1,
        created_at: NOON,
        updated_at: NOON,
        completed_at: None,
        deleted_at: None,
    }
}

fn hierarchy_replacement(
    item: &Item,
    status: ItemStatus,
    parent_id: Option<u128>,
    sibling_order: u32,
    constraints: Json,
    dependencies: Vec<Dependency>,
) -> ReplaceItem {
    ReplaceItem {
        is_sensitive: item.is_sensitive,
        kind: item.kind,
        status,
        title: item.title.clone(),
        notes: item.notes.clone(),
        timezone_name: item.timezone_name.clone(),
        duration_kind: Some(item.duration_kind),
        duration_seconds: item.duration_seconds,
        duration_min_seconds: item.duration_min_seconds,
        duration_max_seconds: item.duration_max_seconds,
        duration_source: item.duration_source,
        deadline_kind: Some(item.deadline_kind),
        deadline_date: item.deadline_date,
        deadline_at: item.deadline_at,
        deadline_strength: item.deadline_strength,
        deadline_soft_weight: item.deadline_soft_weight,
        earliest_start_at: item.earliest_start_at,
        recurrence: None,
        constraints,
        dependencies,
        has_own_effort: Some(item.has_own_effort),
        split_policy: item.split_policy,
        importance: item.importance,
        urgency: item.urgency,
        parent_id,
        sibling_order,
        blocked_reason_kind: item.blocked_reason_kind,
        blocked_by_item_id: item.blocked_by_item_id,
        blocked_reason: item.blocked_reason.clone(),
    }
}

/// What a command makes of its item.
fn content(
    command: &ProposalCommand,
    current: Option<&Item>,
) -> Result<Item, ItemRepositoryError> {
    match command {
        ProposalCommand::CreateItem { item, .. } => Ok(hierarchy_review_item(
            item.id,
            item.kind,
            item.status,
            item.parent_id,
            item.sibling_order,
            item.constraints.clone(),
            item.dependencies.clone(),
        )),
        ProposalCommand::ReplaceItem { item_id, item, .. } => {
            let current = current.ok_or(ItemRepositoryError::NotFound(*item_id))?;
            let mut next = current.clone();
            next.status = item.status;
            next.parent_id = item.parent_id;
            next.sibling_order = item.sibling_order;
            next.constraints = item.constraints.clone();
            next.dependencies = item.dependencies.clone();
            next.revision += 1;
            Ok(next)
        }
        ProposalCommand::TrashItem { item_id, .. } => {
            let mut next = current.ok_or(ItemRepositoryError::NotFound(*item_id))?.clone();
            next.deleted_at = Some(NOON);
            next.revision += 1;
            Ok(next)
        }
        ProposalCommand::RestoreItem { item_id, .. } => {
            let mut next = current.ok_or(ItemRepositoryError::NotFound(*item_id))?.clone();
            next.deleted_at = None;
            next.revision += 1;
            Ok(next)
        }
    }
}

/// Refuses a circle of predecessors, where the children of an ordered routine come one
/// after the other.
fn graph(items: &BTreeMap<u128, Item>) -> Result<(), ItemRepositoryError> {
    let mut successors: BTreeMap<u128, BTreeSet<u128>> = BTreeMap::new();
    for item in items.values() {
        for dependency in &item.dependencies {
            if !items.contains_key(&dependency.item_id) {
                return Err(ItemRepositoryError::DependencyNotFound(dependency.item_id));
            }
            successors.entry(dependency.item_id).or_default().insert(item.id);
        }
        if item.constraints.get("routine_ordered").and_then(Json::as_bool) == Some(true) {
            let mut children: Vec<(u32, u128)> = items
                .values()
                .filter(|child| child.parent_id == Some(item.id))
                .map(|child| (child.sibling_order, child.id))
                .collect();
            children.sort();
            for pair in children.windows(2) {
                successors.entry(pair[0].1).or_default().insert(pair[1].1);
            }
        }
    }
    let mut open: BTreeSet<u128> = items.keys().copied().collect();
    loop {
        let free: Vec<u128> = open
            .iter()
            .copied()
            .filter(|id| {
                !open.iter().any(|other| {
                    successors.get(other).is_some_and(|targets| targets.contains(id))
                })
            })
            .collect();
        if free.is_empty() {
            break;
        }
        for id in free {
            open.remove(&id);
        }
    }
    if open.is_empty() {
        Ok(())
    } else {
        Err(ItemRepositoryError::DependencyCycle)
    }
}

fn refresh(item: &Item, has_children: bool) -> Result<Item, ItemRepositoryError> {
    let mut next = item.clone();
    next.is_executable = policy().execution_is_allowed(item, has_children);
    Ok(next)
}

fn order_of(
    commands: &Vec<ProposalCommand>,
    initial: &BTreeMap<u128, Item>,
) -> Result<Vec<usize>, (usize, ItemRepositoryError)> {
    validate_initial_command_fences(commands, initial)?;
    command_execution_order(
        &CommandBatch {
            policy: &policy(),
            content: &content,
            refresh: &refresh,
            graph: &graph,
            commands,
        },
        initial,
    )
}

#[test]
fn command_order_backtracks_when_the_first_feasible_branch_dead_ends() {
    let ids: Vec<u128> = (1_u128..=6).collect();
    let initial = [
        hierarchy_review_item(
            ids[0],
            ItemKind::Task,
            ItemStatus::Scheduled,
            Some(ids[5]),
            2,
            plain(),
            Vec::new(),
        ),
        hierarchy_review_item(
            ids[1],
            ItemKind::Task,
            ItemStatus::Planned,
            Some(ids[5]),
            1,
            plain(),
            Vec::new(),
        ),
        hierarchy_review_item(
            ids[2],
            ItemKind::Task,
            ItemStatus::Planned,
            Some(ids[1]),
            2,
            plain(),
            Vec::new(),
        ),
        hierarchy_review_item(
            ids[3],
            ItemKind::Task,
            ItemStatus::Planned,
            Some(ids[5]),
            1,
            plain(),
            Vec::new(),
        ),
        hierarchy_review_item(
            ids[4],
            ItemKind::Routine,
            ItemStatus::Planned,
            Some(ids[2]),
            3,
            ordered_routine(),
            dependencies(&[ids[3]]),
        ),
        hierarchy_review_item(
            ids[5],
            ItemKind::Routine,
            ItemStatus::Planned,
            None,
            2,
            ordered_routine(),
            Vec::new(),
        ),
    ];
    let initial_by_id: BTreeMap<u128, Item> =
        initial.iter().map(|item| (item.id, item.clone())).collect();
    let commands = vec![
        ProposalCommand::ReplaceItem {
            command_id: 101,
            item_id: ids[0],
            expected_revision: 1,
            item: hierarchy_replacement(
                &initial[0],
                ItemStatus::Planned,
                Some(ids[1]),
                2,
                plain(),
                Vec::new(),
            ),
        },
        ProposalCommand::ReplaceItem {
            command_id: 102,
            item_id: ids[1],
            expected_revision: 1,
            item: hierarchy_replacement(
                &initial[1],
                ItemStatus::Planned,
                Some(ids[3]),
                0,
                plain(),
                Vec::new(),
            ),
        },
        ProposalCommand::ReplaceItem {
            command_id: 103,
            item_id: ids[2],
            expected_revision: 1,
            item: hierarchy_replacement(
                &initial[2],
                ItemStatus::Planned,
                Some(ids[5]),
                1,
                plain(),
                dependencies(&[ids[0], ids[3], ids[5]]),
            ),
        },
        ProposalCommand::ReplaceItem {
            command_id: 104,
            item_id: ids[3],
            expected_revision: 1,
            item: hierarchy_replacement(
                &initial[3],
                ItemStatus::Planned,
                Some(ids[2]),
                3,
                plain(),
                Vec::new(),
            ),
        },
    ];

    assert_eq!(
        order_of(&commands, &initial_by_id).expect("fallback finds the valid projected sequence"),
        vec![0, 3, 2, 1]
    );
}

fn task(id: u128, parent_id: Option<u128>) -> Item {
    hierarchy_review_item(id, ItemKind::Task, ItemStatus::Planned, parent_id, 0, plain(), Vec::new())
}

fn new_task(id: u128, parent_id: Option<u128>) -> NewItem {
    NewItem {
        id,
        is_sensitive: false,
        kind: ItemKind::Task,
        status: ItemStatus::Planned,
        title: "New".to_owned(),
        notes: None,
        timezone_name: "UTC".to_owned(),
        duration_kind: None,
        duration_seconds: None,
        duration_min_seconds: None,
        duration_max_seconds: None,
        duration_source: None,
        deadline_kind: None,
        deadline_date: None,
        deadline_at: None,
        deadline_strength: None,
        deadline_soft_weight: None,
        earliest_start_at: None,
        recurrence: None,
        constraints: plain(),
        dependencies: Vec::new(),
        has_own_effort: None,
        split_policy: SplitPolicy::Indivisible,
        importance: 1,
        urgency: 1,
        parent_id,
        sibling_order: 0,
        blocked_reason_kind: None,
        blocked_by_item_id: None,
        blocked_reason: None,
    }
}

#[test]
fn parents_are_created_before_their_children() {
    let commands = vec![
        ProposalCommand::CreateItem { command_id: 1, item: new_task(11, Some(12)) },
        ProposalCommand::CreateItem { command_id: 2, item: new_task(12, None) },
    ];
    assert_eq!(command_prerequisites(&commands), vec![Some(1), None]);
    assert_eq!(order_of(&commands, &BTreeMap::new()).unwrap(), vec![1, 0]);
    assert_eq!(batch_graph_mode(&commands), TransactionalGraphMode::DeferredWithStagedCreates);
}

#[test]
fn commands_keep_their_positions_where_they_can() {
    let items: BTreeMap<u128, Item> = [(1, task(1, None)), (2, task(2, None))].into();
    let commands = vec![
        ProposalCommand::TrashItem { command_id: 7, item_id: 2, expected_revision: 1 },
        ProposalCommand::TrashItem { command_id: 8, item_id: 1, expected_revision: 1 },
    ];
    assert_eq!(order_of(&commands, &items).unwrap(), vec![0, 1]);
}

#[test]
fn children_are_trashed_before_their_parents() {
    let items: BTreeMap<u128, Item> = [(1, task(1, None)), (2, task(2, Some(1)))].into();
    let commands = vec![
        ProposalCommand::TrashItem { command_id: 7, item_id: 1, expected_revision: 1 },
        ProposalCommand::TrashItem { command_id: 8, item_id: 2, expected_revision: 1 },
    ];
    assert_eq!(order_of(&commands, &items).unwrap(), vec![1, 0]);
}

#[test]
fn a_batch_without_a_workable_order_names_the_refused_command() {
    let items: BTreeMap<u128, Item> = [(1, task(1, None)), (2, task(2, Some(1)))].into();
    let commands =
        vec![ProposalCommand::TrashItem { command_id: 7, item_id: 1, expected_revision: 1 }];
    assert_eq!(order_of(&commands, &items).unwrap_err(), (0, ItemRepositoryError::HasChildren));

    let circle = vec![
        ProposalCommand::CreateItem { command_id: 1, item: new_task(11, Some(12)) },
        ProposalCommand::CreateItem { command_id: 2, item: new_task(12, Some(11)) },
    ];
    assert_eq!(
        order_of(&circle, &BTreeMap::new()).unwrap_err(),
        (0, ItemRepositoryError::HierarchyCycle)
    );
    let waiting = vec![
        ProposalCommand::CreateItem { command_id: 1, item: new_task(13, None) },
        ProposalCommand::CreateItem { command_id: 2, item: new_task(11, Some(12)) },
        ProposalCommand::CreateItem { command_id: 3, item: new_task(12, Some(11)) },
    ];
    assert_eq!(
        order_of(&waiting, &BTreeMap::new()).unwrap_err(),
        (1, ItemRepositoryError::HierarchyCycle)
    );
}

#[test]
fn commands_on_other_revisions_are_refused_before_any_order_is_looked_for() {
    let items: BTreeMap<u128, Item> = [(1, task(1, None))].into();
    let stale = vec![ProposalCommand::TrashItem { command_id: 7, item_id: 1, expected_revision: 4 }];
    assert_eq!(
        order_of(&stale, &items).unwrap_err(),
        (0, ItemRepositoryError::RevisionConflict { expected: 4, actual: 1 })
    );
    let missing =
        vec![ProposalCommand::TrashItem { command_id: 7, item_id: 9, expected_revision: 1 }];
    assert_eq!(order_of(&missing, &items).unwrap_err(), (0, ItemRepositoryError::NotFound(9)));
    let restore =
        vec![ProposalCommand::RestoreItem { command_id: 7, item_id: 1, expected_revision: 1 }];
    assert_eq!(order_of(&restore, &items).unwrap_err(), (0, ItemRepositoryError::NotFound(1)));
    let duplicate = vec![ProposalCommand::CreateItem { command_id: 7, item: new_task(1, None) }];
    assert_eq!(order_of(&duplicate, &items).unwrap_err(), (0, ItemRepositoryError::Duplicate(1)));
}

#[test]
fn only_some_refusals_depend_on_the_order() {
    assert!(order_error_can_be_resolved(&ItemRepositoryError::HasChildren));
    assert!(order_error_can_be_resolved(&ItemRepositoryError::DependencyNotFound(3)));
    assert!(!order_error_can_be_resolved(&ItemRepositoryError::SelfParent));
    assert!(!order_error_can_be_resolved(&ItemRepositoryError::Internal));
}

#[test]
fn a_trial_names_the_command_that_stands_in_its_way() {
    let items: BTreeMap<u128, Item> = [(1, task(1, None)), (2, task(2, Some(1)))].into();
    let rules = policy();
    let conflict_of = |commands: &Vec<ProposalCommand>| {
        simulation_order(
            &CommandBatch {
                policy: &rules,
                content: &content,
                refresh: &refresh,
                graph: &graph,
                commands,
            },
            &items,
        )
    };
    let stale = vec![
        ProposalCommand::TrashItem { command_id: 7, item_id: 2, expected_revision: 1 },
        ProposalCommand::TrashItem { command_id: 8, item_id: 1, expected_revision: 4 },
    ];
    let conflict = conflict_of(&stale).unwrap_err();
    assert_eq!(conflict.code, ProposalConflictCode::ItemRevisionMismatch);
    assert_eq!(conflict.command_id, Some(8));
    assert_eq!(conflict.expected_revision, Some(4));
    assert_eq!(conflict.actual_revision, Some(1));

    let parent =
        vec![ProposalCommand::TrashItem { command_id: 7, item_id: 1, expected_revision: 1 }];
    let conflict = conflict_of(&parent).unwrap_err();
    assert_eq!(conflict.code, ProposalConflictCode::HasChildren);
    assert_eq!(conflict.item_id, Some(1));

    let both = vec![
        ProposalCommand::TrashItem { command_id: 7, item_id: 1, expected_revision: 1 },
        ProposalCommand::TrashItem { command_id: 8, item_id: 2, expected_revision: 1 },
    ];
    assert_eq!(conflict_of(&both).unwrap(), vec![1, 0]);
    let conflict = graph_conflict(&both, &ItemRepositoryError::DependencyCycle);
    assert_eq!(conflict.command_id, Some(7));
    assert_eq!(conflict.summary, "The proposed dependency change would create a cycle.");
}

#[test]
fn the_effects_of_a_trial_are_those_of_its_end() {
    let initial: BTreeMap<u128, Item> = [(1, task(1, None))].into();
    let commands = vec![
        ProposalCommand::CreateItem { command_id: 7, item: new_task(2, Some(1)) },
        ProposalCommand::ReplaceItem {
            command_id: 8,
            item_id: 1,
            expected_revision: 1,
            item: hierarchy_replacement(
                &initial[&1],
                ItemStatus::Planned,
                None,
                3,
                plain(),
                Vec::new(),
            ),
        },
    ];
    let mut parent = task(1, None);
    parent.revision = 3;
    let left: BTreeMap<u128, Item> = [(1, parent), (2, task(2, Some(1)))].into();
    let effects = simulated_effects(&commands, &vec![1, 0], &initial, &left).unwrap();
    assert_eq!(effects.len(), 2);
    assert!(effects[0].before.is_none());
    assert_eq!(effects[0].after.id, 2);
    assert_eq!(effects[0].execution_ordinal, 1);
    assert_eq!(effects[1].before.as_ref().map(|item| item.revision), Some(1));
    assert_eq!(effects[1].after.revision, 3);
    assert_eq!(effects[1].execution_ordinal, 0);
    assert_eq!(undo_trial_order(&commands, &effects).unwrap(), vec![0, 1]);

    let conflict = simulated_effects(&commands, &vec![1, 0], &initial, &initial).unwrap_err();
    assert_eq!(conflict.code, ProposalConflictCode::ItemNotFound);
    assert_eq!(conflict.command_id, Some(7));
}

#[test]
fn a_command_leaves_the_items_around_it_alone() {
    let initial: BTreeMap<u128, Item> =
        [(1, task(1, None)), (2, task(2, Some(1))), (3, task(3, None))].into();
    let commands =
        vec![ProposalCommand::TrashItem { command_id: 7, item_id: 2, expected_revision: 1 }];
    let start = projected_batch_state(&policy(), &content, &commands, &initial).unwrap();
    let next =
        project_command_for_ordering(&policy(), &content, &refresh, &graph, &commands[0], &start)
            .unwrap();
    assert!(next.items[&2].deleted_at.is_some());
    assert!(next.items[&1].is_executable);
    assert!(!initial[&1].is_executable);
    assert!(next.items[&3].same(&initial[&3]));
}
