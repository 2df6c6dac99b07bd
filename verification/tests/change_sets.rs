use dayweave_api::items::model::{ItemKind, ItemStatus, NewItem, SplitPolicy};
use dayweave_api::json::{Json, JsonNumber};
use dayweave_api::proposals::application::{
    command_content, command_values, read_command, ProposalChangeSet, ProposalChangeSetError, ProposalCommand, ProposalOperation,
    ReadItem, MAX_PROPOSAL_COMMANDS,
};
use uuid::Uuid;

fn text(value: &str) -> Json {
    Json::Text(value.to_owned())
}

fn object(members: Vec<(&str, Json)>) -> Json {
    Json::Object(members.into_iter().map(|(key, value)| (key.to_owned(), value)).collect())
}

fn new_item(id: u128) -> NewItem {
    NewItem {
        id,
        is_sensitive: false,
        kind: ItemKind::Task,
        status: ItemStatus::Inbox,
        title: "Review plan".to_owned(),
        notes: None,
        timezone_name: "Europe/Madrid".to_owned(),
        duration_kind: None,
        duration_seconds: Some(1_800),
        duration_min_seconds: None,
        duration_max_seconds: None,
        duration_source: None,
        deadline_kind: None,
        deadline_date: None,
        deadline_at: None,
        deadline_strength: None,
        deadline_soft_weight: None,
        earliest_start_at: None,
        recurrence: None,
        constraints: Json::Object(Vec::new()),
        dependencies: Vec::new(),
        has_own_effort: None,
        split_policy: SplitPolicy::Indivisible,
        importance: 5,
        urgency: 4,
        parent_id: None,
        sibling_order: 0,
        blocked_reason_kind: None,
        blocked_by_item_id: None,
        blocked_reason: None,
    }
}

fn create_command(command_id: u128, item_id: u128) -> ProposalCommand {
    ProposalCommand::CreateItem { command_id, item: new_item(item_id) }
}

fn id_text(id: u128) -> Json {
    text(&Uuid::from_u128(id).to_string())
}

/// The members of a command that creates an item.
fn create_members(command_id: u128, item_id: u128) -> Vec<(&'static str, Json)> {
    vec![
        ("command_id", id_text(command_id)),
        ("item", object(vec![("id", id_text(item_id))])),
        ("operation", text("create_item")),
    ]
}

fn trash_members(command_id: u128, item_id: u128, revision: u64) -> Vec<(&'static str, Json)> {
    vec![
        ("command_id", id_text(command_id)),
        ("expected_revision", Json::Number(JsonNumber::Unsigned(revision))),
        ("item_id", id_text(item_id)),
        ("operation", text("trash_item")),
    ]
}

fn change_set_members(commands: Vec<Json>) -> Vec<(&'static str, Json)> {
    vec![
        ("commands", Json::Array(commands)),
        ("schema", text("dayweave.proposal-change-set/1")),
    ]
}

fn random() -> u128 {
    Uuid::new_v4().as_u128()
}

#[test]
fn rejects_unknown_top_level_and_command_fields() {
    let command_id = random();
    let item_id = random();
    let valid = object(change_set_members(vec![object(create_members(command_id, item_id))]));
    assert!(ProposalChangeSet::from_payload(&valid, vec![ReadItem::New(new_item(item_id))]).is_ok());

    let mut top_level = change_set_members(vec![object(create_members(command_id, item_id))]);
    top_level.push(("legacy_hint", Json::Bool(true)));
    assert!(ProposalChangeSet::from_payload(
        &object(top_level),
        vec![ReadItem::New(new_item(item_id))]
    )
    .is_err());

    let mut command_level = create_members(command_id, item_id);
    command_level.push(("provider_write", Json::Bool(true)));
    assert!(ProposalChangeSet::from_payload(
        &object(change_set_members(vec![object(command_level)])),
        vec![ReadItem::New(new_item(item_id))]
    )
    .is_err());
}

#[test]
fn rejects_duplicate_command_ids() {
    let command_id = random();
    let (first, second) = (random(), random());
    let value = object(change_set_members(vec![
        object(create_members(command_id, first)),
        object(create_members(command_id, second)),
    ]));

    assert_eq!(
        ProposalChangeSet::from_payload(
            &value,
            vec![ReadItem::New(new_item(first)), ReadItem::New(new_item(second))]
        )
        .unwrap_err(),
        ProposalChangeSetError::InvalidPayload
    );
    assert_eq!(
        ProposalChangeSet::new(vec![
            create_command(command_id, random()),
            create_command(command_id, random()),
        ])
        .unwrap_err(),
        ProposalChangeSetError::DuplicateCommandId(command_id)
    );
}

#[test]
fn rejects_duplicate_target_ids_across_operations() {
    let item_id = random();
    let value = object(change_set_members(vec![
        object(create_members(random(), item_id)),
        object(trash_members(random(), item_id, 1)),
    ]));

    assert!(ProposalChangeSet::from_payload(
        &value,
        vec![ReadItem::New(new_item(item_id)), ReadItem::Absent]
    )
    .is_err());
    assert_eq!(
        ProposalChangeSet::new(vec![
            create_command(random(), item_id),
            ProposalCommand::TrashItem { command_id: random(), item_id, expected_revision: 1 },
        ])
        .unwrap_err(),
        ProposalChangeSetError::DuplicateTargetId(item_id)
    );
}

#[test]
fn enforces_command_count_bounds() {
    assert_eq!(
        ProposalChangeSet::new(Vec::new()).unwrap_err(),
        ProposalChangeSetError::Empty
    );

    let commands =
        (0..=MAX_PROPOSAL_COMMANDS).map(|_| create_command(random(), random())).collect();
    assert_eq!(
        ProposalChangeSet::new(commands).unwrap_err(),
        ProposalChangeSetError::TooManyCommands { maximum: MAX_PROPOSAL_COMMANDS }
    );

    let commands: Vec<ProposalCommand> =
        (0..MAX_PROPOSAL_COMMANDS).map(|_| create_command(random(), random())).collect();
    assert_eq!(ProposalChangeSet::new(commands).unwrap().commands.len(), 100);
}

#[test]
fn rejects_legacy_and_wrong_schema_payloads() {
    let legacy = object(vec![
        (
            "operations",
            Json::Array(vec![object(vec![
                ("operation", text("create_item")),
                ("parameters", Json::Object(Vec::new())),
            ])]),
        ),
        ("schema_version", Json::Number(JsonNumber::Unsigned(1))),
    ]);
    assert_eq!(
        ProposalChangeSet::from_payload(&legacy, Vec::new()).unwrap_err(),
        ProposalChangeSetError::InvalidPayload
    );

    let wrong_schema = object(vec![
        ("commands", Json::Array(Vec::new())),
        ("schema", text("dayweave.proposal-change-set/2")),
    ]);
    assert_eq!(
        ProposalChangeSet::from_payload(&wrong_schema, Vec::new()).unwrap_err(),
        ProposalChangeSetError::InvalidPayload
    );
}

#[test]
fn rejects_zero_expected_revision() {
    let command_id = random();
    let item_id = random();
    let command = ProposalCommand::TrashItem { command_id, item_id, expected_revision: 0 };
    assert_eq!(
        ProposalChangeSet::new(vec![command]).unwrap_err(),
        ProposalChangeSetError::ExpectedRevisionMustBePositive(command_id)
    );
}

#[test]
fn commands_are_read_from_their_members() {
    let id = Uuid::from_u128(0x67e5_5044_10b1_426f_9247_bb68_0e5f_e0c8);
    let command = read_command(&object(trash_members(id.as_u128(), 7, 3)), ReadItem::Absent)
        .expect("a command");
    assert_eq!(command.command_id(), 0x67e5_5044_10b1_426f_9247_bb68_0e5f_e0c8);
    assert_eq!(command.target_item_id(), 7);
    assert_eq!(command.expected_revision(), Some(3));
    assert_eq!(command.operation(), ProposalOperation::TrashItem);

    let mut restore = trash_members(8, 9, 4);
    restore[3] = ("operation", text("restore_item"));
    let command = read_command(&object(restore), ReadItem::Absent).expect("a command");
    assert_eq!(command.operation(), ProposalOperation::RestoreItem);

    let mut unnamed = trash_members(8, 9, 4);
    unnamed[0] = ("command_id", text("not an identifier"));
    assert!(read_command(&object(unnamed), ReadItem::Absent).is_none());
    let mut unknown = trash_members(8, 9, 4);
    unknown[3] = ("operation", text("drop_item"));
    assert!(read_command(&object(unknown), ReadItem::Absent).is_none());
    assert!(read_command(&Json::Null, ReadItem::Absent).is_none());
}

#[test]
fn change_sets_are_read_from_arrays_of_their_parts() {
    let number = |value: u64| Json::Number(JsonNumber::Unsigned(value));
    let trash = |parts: Vec<Json>| {
        let mut values = vec![text("trash_item")];
        values.extend(parts);
        Json::Array(values)
    };
    let schema = || text("dayweave.proposal-change-set/1");
    let command = || trash(vec![id_text(8), id_text(9), number(4)]);
    let payload = Json::Array(vec![schema(), Json::Array(vec![command()])]);
    let set = ProposalChangeSet::from_payload(&payload, vec![ReadItem::Absent]).expect("a set");
    assert_eq!(set.commands.len(), 1);
    assert_eq!(set.commands[0].operation(), ProposalOperation::TrashItem);
    assert_eq!(set.commands[0].command_id(), 8);
    assert_eq!(set.commands[0].target_item_id(), 9);
    assert_eq!(set.commands[0].expected_revision(), Some(4));
    assert_eq!(command_values(&payload).map(|values| values.len()), Some(1));

    let nested = object(vec![
        ("commands", Json::Array(vec![command()])),
        ("schema", object(vec![("dayweave.proposal-change-set/1", Json::Null)])),
    ]);
    assert!(ProposalChangeSet::from_payload(&nested, Vec::new()).is_ok());
    let refused = |payload: Json| {
        ProposalChangeSet::from_payload(&payload, Vec::new()).unwrap_err()
            == ProposalChangeSetError::InvalidPayload
    };
    assert!(refused(object(vec![
        ("commands", Json::Array(vec![command()])),
        ("schema", object(vec![("dayweave.proposal-change-set/1", Json::Bool(true))])),
    ])));
    assert!(refused(Json::Array(vec![Json::Array(vec![command()]), schema()])));
    assert!(refused(Json::Array(vec![schema(), Json::Array(vec![command()]), Json::Null])));
    let short = trash(vec![id_text(8), id_text(9)]);
    assert!(refused(Json::Array(vec![schema(), Json::Array(vec![short])])));
    let long = trash(vec![id_text(8), id_text(9), number(4), Json::Null]);
    assert!(refused(Json::Array(vec![schema(), Json::Array(vec![long])])));
    assert!(refused(Json::Array(vec![schema(), Json::Array(vec![Json::Array(Vec::new())])])));

    let create = Json::Array(vec![text("create_item"), id_text(8), object(vec![])]);
    assert!(matches!(
        command_content(&create),
        Some((ProposalOperation::CreateItem, Json::Object(_)))
    ));
    let read = read_command(&create, ReadItem::New(new_item(9))).expect("a command");
    assert_eq!(read.target_item_id(), 9);
    assert!(command_content(&command()).is_none());
    let replace = Json::Array(vec![
        text("replace_item"),
        id_text(8),
        id_text(9),
        number(4),
        Json::Null,
    ]);
    assert!(matches!(
        command_content(&replace),
        Some((ProposalOperation::ReplaceItem, Json::Null))
    ));
}
