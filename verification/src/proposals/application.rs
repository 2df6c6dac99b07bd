//! Change sets: the item commands of a proposal, and the review and application of
//! them.
use vstd::prelude::*;

use crate::items::model::{Item, NewItem, ReplaceItem};
use crate::json::Json;
use crate::outside::parse_uuid;
use crate::text::same_text;
use crate::time::{Instant, Uuid};

verus! {

/// The largest batch of commands that can be applied.
pub const MAX_PROPOSAL_COMMANDS: usize = 100;

/// The largest group of proposals that is reviewed and applied together.
pub const MAX_PROPOSALS_PER_PREVIEW: usize = 20;

/// The one schema of payloads that can be carried out.
#[derive(Clone, Copy, Debug, PartialEq, Eq, Structural)]
pub enum ProposalChangeSetSchema {
    V1,
}

/// The identifier of the schema in a payload.
pub open spec fn schema_name() -> Seq<char> {
    "dayweave.proposal-change-set/1"@
}

/// A batch of item commands that is carried out as one.
#[derive(Debug)]
pub struct ProposalChangeSet {
    pub schema: ProposalChangeSetSchema,
    pub commands: Vec<ProposalCommand>,
}

/// One change of one item.
#[allow(inconsistent_fields)]
#[derive(Debug)]
pub enum ProposalCommand {
    CreateItem { command_id: Uuid, item: NewItem },
    ReplaceItem { command_id: Uuid, item_id: Uuid, expected_revision: u64, item: ReplaceItem },
    TrashItem { command_id: Uuid, item_id: Uuid, expected_revision: u64 },
    RestoreItem { command_id: Uuid, item_id: Uuid, expected_revision: u64 },
}

/// What a command does to its item.
#[derive(Clone, Copy, Debug, PartialEq, Eq, Structural)]
pub enum ProposalOperation {
    CreateItem,
    ReplaceItem,
    TrashItem,
    RestoreItem,
}

/// Why a change set is refused.
#[derive(Clone, Copy, Debug, PartialEq, Eq, Structural)]
pub enum ProposalChangeSetError {
    InvalidPayload,
    Empty,
    TooManyCommands { maximum: usize },
    DuplicateCommandId(Uuid),
    DuplicateTargetId(Uuid),
    ExpectedRevisionMustBePositive(Uuid),
}

/// One proposal of a group that is to be reviewed.
#[derive(Clone, Copy, Debug, PartialEq, Eq, Structural)]
pub struct ProposalPreviewMember {
    pub proposal_id: Uuid,
    pub expected_revision: u64,
}

/// The proposals that are to be reviewed together.
#[derive(Debug)]
pub struct ProposalPreviewRequest {
    pub proposals: Vec<ProposalPreviewMember>,
}

/// The fields of an item that a review can point out.
#[derive(Clone, Copy, Debug, PartialEq, Eq, Structural)]
pub enum ProposalItemField {
    IsSensitive,
    Kind,
    Status,
    Title,
    Notes,
    TimezoneName,
    DurationKind,
    DurationSeconds,
    DurationMinSeconds,
    DurationMaxSeconds,
    DurationSource,
    DeadlineKind,
    DeadlineDate,
    DeadlineAt,
    DeadlineStrength,
    DeadlineSoftWeight,
    EarliestStartAt,
    Recurrence,
    FlexibleConstraints,
    Dependencies,
    HasOwnEffort,
    SplitPolicy,
    Importance,
    Urgency,
    ParentId,
    SiblingOrder,
    BlockedReasonKind,
    BlockedByItemId,
    BlockedReason,
    IsExecutable,
    Revision,
    CompletedAt,
    DeletedAt,
}

/// An item before and after the command on it.
#[derive(Debug)]
pub struct ProposalItemDiff {
    pub command_id: Uuid,
    pub operation: ProposalOperation,
    pub item_id: Uuid,
    pub changed_fields: Vec<ProposalItemField>,
    pub before: Option<Item>,
    pub after: Option<Item>,
}

/// An item that changed though no command is about it.
#[derive(Debug)]
pub struct ProposalImplicitItemDiff {
    pub item_id: Uuid,
    pub reason: ProposalImplicitChangeReason,
    pub changed_fields: Vec<ProposalItemField>,
    pub before: Item,
    pub after: Item,
}

/// Why an item changed that no command is about.
#[derive(Clone, Copy, Debug, PartialEq, Eq, Structural)]
pub enum ProposalImplicitChangeReason {
    HierarchyRefresh,
}

/// How much attention a change asks for.
#[derive(Clone, Copy, Debug, PartialEq, Eq, Structural)]
pub enum ProposalRiskLevel {
    Low,
    Medium,
    High,
    Critical,
}

/// What about a change asks for attention.
#[derive(Clone, Copy, Debug, PartialEq, Eq, Structural)]
pub enum ProposalRiskCode {
    CreatesItem,
    ReplacesItem,
    TrashesItem,
    RestoresItem,
    ChangesDeadline,
    RelaxesDeadline,
    ChangesHierarchy,
    ChangesDependencies,
    ChangesSensitivity,
    ChangesRecurrence,
    ChangesExecutionState,
    SensitiveContent,
    BulkChange,
}

/// Something about a change that asks for attention.
#[derive(Debug)]
pub struct ProposalRisk {
    pub code: ProposalRiskCode,
    pub level: ProposalRiskLevel,
    pub command_id: Option<Uuid>,
    pub item_id: Option<Uuid>,
    pub requires_explicit_approval: bool,
    pub summary: String,
}

/// Why a change set cannot be applied as things stand.
#[derive(Clone, Copy, Debug, PartialEq, Eq, Structural)]
pub enum ProposalConflictCode {
    ProposalNotPending,
    ProposalExpired,
    ProposalRevisionMismatch,
    ItemAlreadyExists,
    ItemNotFound,
    ItemRevisionMismatch,
    ParentNotFound,
    HierarchyCycle,
    DependencyNotFound,
    DependencyCycle,
    InvalidParentState,
    NonLeafExecutable,
    HasChildren,
    DeletedParent,
    InvalidItem,
    ProviderManagedItem,
    PreviewExpired,
    PreviewMismatch,
    PreviewNotApplicable,
    AlreadyApplied,
    UndoExpired,
    UndoDiverged,
}

/// One reason why a change set cannot be applied.
#[derive(Debug)]
pub struct ProposalConflict {
    pub code: ProposalConflictCode,
    pub command_id: Option<Uuid>,
    pub item_id: Option<Uuid>,
    pub expected_revision: Option<u64>,
    pub actual_revision: Option<u64>,
    pub summary: String,
}

/// A review of a change set. It is bound to its content, and it expires.
#[derive(Debug)]
pub struct ProposalChangeSetPreview {
    pub preview_id: Uuid,
    pub proposals: Vec<ProposalPreviewMember>,
    pub change_set_schema: ProposalChangeSetSchema,
    pub command_ids: Vec<Uuid>,
    pub review_hash: String,
    pub expires_at: Instant,
    pub can_apply: bool,
    pub maximum_risk: ProposalRiskLevel,
    pub requires_explicit_approval: bool,
    pub diffs: Vec<ProposalItemDiff>,
    pub implicit_diffs: Vec<ProposalImplicitItemDiff>,
    pub risks: Vec<ProposalRisk>,
    pub conflicts: Vec<ProposalConflict>,
}

/// The approval of one review.
#[derive(Debug)]
pub struct ProposalApplyRequest {
    pub expected_review_hash: String,
}

/// Whether an application still stands.
#[derive(Clone, Copy, Debug, PartialEq, Eq, Structural)]
pub enum ProposalApplicationStatus {
    Applied,
    Undone,
}

/// A proposal that was applied, and the revision that it then had.
#[derive(Clone, Copy, Debug, PartialEq, Eq, Structural)]
pub struct ProposalAppliedMember {
    pub proposal_id: Uuid,
    pub applied_revision: u64,
}

/// What is known of an application afterwards.
#[derive(Debug)]
pub struct ProposalApplicationReceipt {
    pub application_id: Uuid,
    pub proposals: Vec<ProposalAppliedMember>,
    pub application_revision: u64,
    pub status: ProposalApplicationStatus,
    pub command_ids: Vec<Uuid>,
    pub affected_item_ids: Vec<Uuid>,
    pub applied_at: Instant,
    pub undo_expires_at: Instant,
    pub undone_at: Option<Instant>,
}

/// The answer to an approval.
#[derive(Debug)]
pub struct ProposalApplyResponse {
    pub application: ProposalApplicationReceipt,
    pub replayed: bool,
}

/// A request to undo an application of a known revision.
#[derive(Clone, Copy, Debug, PartialEq, Eq, Structural)]
pub struct ProposalUndoRequest {
    pub expected_application_revision: u64,
}

/// The answer to a request to undo.
#[derive(Debug)]
pub struct ProposalUndoResponse {
    pub application: ProposalApplicationReceipt,
    pub replayed: bool,
}

impl ProposalRiskLevel {
    /// The place of a level in the order of the levels.
    pub open spec fn rank(self) -> int {
        match self {
            ProposalRiskLevel::Low => 0,
            ProposalRiskLevel::Medium => 1,
            ProposalRiskLevel::High => 2,
            ProposalRiskLevel::Critical => 3,
        }
    }

    fn place(&self) -> (result: u8)
        ensures
            result == self.rank(),
    {
        match self {
            ProposalRiskLevel::Low => 0,
            ProposalRiskLevel::Medium => 1,
            ProposalRiskLevel::High => 2,
            ProposalRiskLevel::Critical => 3,
        }
    }

    /// The higher of two levels.
    pub fn higher(self, other: ProposalRiskLevel) -> (result: ProposalRiskLevel)
        ensures
            result == (if self.rank() >= other.rank() {
                self
            } else {
                other
            }),
    {
        if self.place() >= other.place() {
            self
        } else {
            other
        }
    }
}

impl ProposalCommand {
    /// The identifier of the command.
    pub open spec fn spec_command_id(self) -> Uuid {
        match self {
            ProposalCommand::CreateItem { command_id, .. } => command_id,
            ProposalCommand::ReplaceItem { command_id, .. } => command_id,
            ProposalCommand::TrashItem { command_id, .. } => command_id,
            ProposalCommand::RestoreItem { command_id, .. } => command_id,
        }
    }

    /// What the command does.
    pub open spec fn spec_operation(self) -> ProposalOperation {
        match self {
            ProposalCommand::CreateItem { .. } => ProposalOperation::CreateItem,
            ProposalCommand::ReplaceItem { .. } => ProposalOperation::ReplaceItem,
            ProposalCommand::TrashItem { .. } => ProposalOperation::TrashItem,
            ProposalCommand::RestoreItem { .. } => ProposalOperation::RestoreItem,
        }
    }

    /// The item that the command is about.
    pub open spec fn spec_target(self) -> Uuid {
        match self {
            ProposalCommand::CreateItem { item, .. } => item.id,
            ProposalCommand::ReplaceItem { item_id, .. } => item_id,
            ProposalCommand::TrashItem { item_id, .. } => item_id,
            ProposalCommand::RestoreItem { item_id, .. } => item_id,
        }
    }

    /// The revision that the item must have.
    pub open spec fn spec_expected_revision(self) -> Option<u64> {
        match self {
            ProposalCommand::CreateItem { .. } => None,
            ProposalCommand::ReplaceItem { expected_revision, .. } => Some(expected_revision),
            ProposalCommand::TrashItem { expected_revision, .. } => Some(expected_revision),
            ProposalCommand::RestoreItem { expected_revision, .. } => Some(expected_revision),
        }
    }

    /// The identifier of the command.
    pub fn command_id(&self) -> (result: Uuid)
        ensures
            result == self.spec_command_id(),
    {
        match self {
            ProposalCommand::CreateItem { command_id, .. } => *command_id,
            ProposalCommand::ReplaceItem { command_id, .. } => *command_id,
            ProposalCommand::TrashItem { command_id, .. } => *command_id,
            ProposalCommand::RestoreItem { command_id, .. } => *command_id,
        }
    }

    /// What the command does.
    pub fn operation(&self) -> (result: ProposalOperation)
        ensures
            result == self.spec_operation(),
    {
        match self {
            ProposalCommand::CreateItem { .. } => ProposalOperation::CreateItem,
            ProposalCommand::ReplaceItem { .. } => ProposalOperation::ReplaceItem,
            ProposalCommand::TrashItem { .. } => ProposalOperation::TrashItem,
            ProposalCommand::RestoreItem { .. } => ProposalOperation::RestoreItem,
        }
    }

    /// The item that the command is about.
    pub fn target_item_id(&self) -> (result: Uuid)
        ensures
            result == self.spec_target(),
    {
        match self {
            ProposalCommand::CreateItem { item, .. } => item.id,
            ProposalCommand::ReplaceItem { item_id, .. } => *item_id,
            ProposalCommand::TrashItem { item_id, .. } => *item_id,
            ProposalCommand::RestoreItem { item_id, .. } => *item_id,
        }
    }

    /// The revision that the item must have.
    pub fn expected_revision(&self) -> (result: Option<u64>)
        ensures
            result == self.spec_expected_revision(),
    {
        match self {
            ProposalCommand::CreateItem { .. } => None,
            ProposalCommand::ReplaceItem { expected_revision, .. } => Some(*expected_revision),
            ProposalCommand::TrashItem { expected_revision, .. } => Some(*expected_revision),
            ProposalCommand::RestoreItem { expected_revision, .. } => Some(*expected_revision),
        }
    }
}

/// Whether one of the first `k` commands has this identifier.
pub open spec fn command_id_before(commands: Seq<ProposalCommand>, k: int, id: Uuid) -> bool {
    exists|j: int| 0 <= j < k && (#[trigger] commands[j]).spec_command_id() == id
}

/// Whether one of the first `k` commands is about this item.
pub open spec fn target_before(commands: Seq<ProposalCommand>, k: int, id: Uuid) -> bool {
    exists|j: int| 0 <= j < k && (#[trigger] commands[j]).spec_target() == id
}

/// What is wrong with the command at `k`, given those before it.
pub open spec fn command_error(commands: Seq<ProposalCommand>, k: int) -> Option<
    ProposalChangeSetError,
> {
    let command = commands[k];
    if command_id_before(commands, k, command.spec_command_id()) {
        Some(ProposalChangeSetError::DuplicateCommandId(command.spec_command_id()))
    } else if target_before(commands, k, command.spec_target()) {
        Some(ProposalChangeSetError::DuplicateTargetId(command.spec_target()))
    } else if command.spec_expected_revision() == Some(0u64) {
        Some(ProposalChangeSetError::ExpectedRevisionMustBePositive(command.spec_command_id()))
    } else {
        None
    }
}

/// Whether `error` is why the batch is refused: what is wrong with the first command
/// that something is wrong with.
pub open spec fn refused_with(
    commands: Seq<ProposalCommand>,
    error: ProposalChangeSetError,
) -> bool {
    if commands.len() == 0 {
        error == ProposalChangeSetError::Empty
    } else if commands.len() > MAX_PROPOSAL_COMMANDS {
        error == (ProposalChangeSetError::TooManyCommands { maximum: MAX_PROPOSAL_COMMANDS })
    } else {
        exists|k: int|
            0 <= k < commands.len() && #[trigger] command_error(commands, k) == Some(error)
                && forall|j: int| 0 <= j < k ==> #[trigger] command_error(commands, j) is None
    }
}

/// Whether a batch can be carried out: it is neither empty nor too large, no
/// identifier and no item occurs twice, and no expected revision is zero.
pub open spec fn well_formed(commands: Seq<ProposalCommand>) -> bool {
    &&& 0 < commands.len() <= MAX_PROPOSAL_COMMANDS
    &&& forall|i: int, j: int|
        0 <= i < j < commands.len() ==> (#[trigger] commands[i]).spec_command_id() != (
        #[trigger] commands[j]).spec_command_id()
    &&& forall|i: int, j: int|
        0 <= i < j < commands.len() ==> (#[trigger] commands[i]).spec_target() != (
        #[trigger] commands[j]).spec_target()
    &&& forall|i: int|
        0 <= i < commands.len() ==> (#[trigger] commands[i]).spec_expected_revision() != Some(0u64)
}

impl ProposalChangeSet {
    /// A change set of the given commands.
    pub fn new(commands: Vec<ProposalCommand>) -> (result: Result<
        ProposalChangeSet,
        ProposalChangeSetError,
    >)
        ensures
            match result {
                Ok(set) => set.schema == ProposalChangeSetSchema::V1 && set.commands == commands
                    && well_formed(commands@),
                Err(error) => !well_formed(commands@) && refused_with(commands@, error),
            },
    {
        let change_set = ProposalChangeSet { schema: ProposalChangeSetSchema::V1, commands };
        change_set.validate()?;
        Ok(change_set)
    }

    /// Whether the batch can be carried out.
    pub fn validate(&self) -> (result: Result<(), ProposalChangeSetError>)
        ensures
            match result {
                Ok(_) => well_formed(self.commands@),
                Err(error) => !well_formed(self.commands@) && refused_with(self.commands@, error),
            },
    {
        if self.commands.len() == 0 {
            return Err(ProposalChangeSetError::Empty);
        }
        if self.commands.len() > MAX_PROPOSAL_COMMANDS {
            return Err(ProposalChangeSetError::TooManyCommands { maximum: MAX_PROPOSAL_COMMANDS });
        }
        let mut k: usize = 0;
        while k < self.commands.len()
            invariant
                k <= self.commands.len() <= MAX_PROPOSAL_COMMANDS,
                forall|j: int| 0 <= j < k ==> #[trigger] command_error(self.commands@, j) is None,
            decreases self.commands.len() - k,
        {
            let command = &self.commands[k];
            let mut same_id: bool = false;
            let mut same_target: bool = false;
            let mut j: usize = 0;
            while j < k
                invariant
                    j <= k < self.commands.len(),
                    *command == self.commands@[k as int],
                    same_id == command_id_before(
                        self.commands@,
                        j as int,
                        command.spec_command_id(),
                    ),
                    same_target == target_before(self.commands@, j as int, command.spec_target()),
                decreases k - j,
            {
                if self.commands[j].command_id() == command.command_id() {
                    assert(self.commands@[j as int].spec_command_id() == command.spec_command_id());
                    same_id = true;
                }
                if self.commands[j].target_item_id() == command.target_item_id() {
                    assert(self.commands@[j as int].spec_target() == command.spec_target());
                    same_target = true;
                }
                j = j + 1;
            }
            proof {
                lemma_refusal(self.commands@, k as int);
            }
            if same_id {
                return Err(ProposalChangeSetError::DuplicateCommandId(command.command_id()));
            }
            if same_target {
                return Err(ProposalChangeSetError::DuplicateTargetId(command.target_item_id()));
            }
            if command.expected_revision() == Some(0u64) {
                return Err(
                    ProposalChangeSetError::ExpectedRevisionMustBePositive(command.command_id()),
                );
            }
            k = k + 1;
        }
        proof {
            let commands = self.commands@;
            assert forall|i: int, j: int| 0 <= i < j < commands.len() implies (
            #[trigger] commands[i]).spec_command_id() != (
            #[trigger] commands[j]).spec_command_id() && commands[i].spec_target()
                != commands[j].spec_target() by {
                assert(command_error(commands, j) is None);
            }
            assert forall|i: int| 0 <= i < commands.len() implies (
            #[trigger] commands[i]).spec_expected_revision() != Some(0u64) by {
                assert(command_error(commands, i) is None);
            }
        }
        Ok(())
    }
}

proof fn lemma_refusal(commands: Seq<ProposalCommand>, k: int)
    requires
        0 <= k < commands.len() <= MAX_PROPOSAL_COMMANDS,
        forall|j: int| 0 <= j < k ==> #[trigger] command_error(commands, j) is None,
    ensures
        command_error(commands, k) is Some ==> !well_formed(commands) && refused_with(
            commands,
            command_error(commands, k)->0,
        ),
{
    if command_error(commands, k) is Some && well_formed(commands) {
        let command = commands[k];
        if command_id_before(commands, k, command.spec_command_id()) {
            let j = choose|j: int|
                0 <= j < k && (#[trigger] commands[j]).spec_command_id()
                    == command.spec_command_id();
            assert(commands[j].spec_command_id() != commands[k].spec_command_id());
        } else if target_before(commands, k, command.spec_target()) {
            let j = choose|j: int|
                0 <= j < k && (#[trigger] commands[j]).spec_target() == command.spec_target();
            assert(commands[j].spec_target() != commands[k].spec_target());
        }
    }
}

/// The item content of a command, as far as it could be read from its payload.
#[derive(Debug)]
pub enum ReadItem {
    New(NewItem),
    Replacement(ReplaceItem),
    Absent,
}

/// Whether every member of an object stands under one of the given keys.
pub open spec fn only_keys(members: Seq<(String, Json)>, keys: Seq<Seq<char>>) -> bool {
    forall|i: int| 0 <= i < members.len() ==> keys.contains((#[trigger] members[i]).0@)
}

/// The identifier that a value stands for.
pub open spec fn uuid_value(value: Option<Json>) -> Option<Uuid> {
    match value {
        Some(Json::Text(text)) => crate::outside::uuid_of_text(text@),
        _ => None,
    }
}

/// The revision that a value stands for.
pub open spec fn revision_value(value: Option<Json>) -> Option<u64> {
    match value {
        Some(Json::Number(crate::json::JsonNumber::Unsigned(number))) => Some(number),
        _ => None,
    }
}

/// Whether a value is the given text.
pub open spec fn is_text(value: Option<Json>, text: Seq<char>) -> bool {
    match value {
        Some(Json::Text(found)) => found@ == text,
        _ => false,
    }
}

/// A part of a value that is written either as an object, where the part stands under
/// its key, or as an array, where it stands at its place.
pub open spec fn part(value: Json, place: int, key: Seq<char>) -> Option<Json> {
    match value {
        Json::Object(_) => value.member(key),
        Json::Array(values) => if 0 <= place < values@.len() {
            Some(values@[place])
        } else {
            None
        },
        _ => None,
    }
}

/// Whether a value has no parts but those under the given keys, which stand in the
/// order of the places.
pub open spec fn only_parts(value: Json, keys: Seq<Seq<char>>) -> bool {
    match value {
        Json::Object(members) => only_keys(members@, keys),
        Json::Array(values) => values@.len() == keys.len(),
        _ => false,
    }
}

/// The parts of a command that creates an item.
pub open spec fn creation_keys() -> Seq<Seq<char>> {
    seq!["operation"@, "command_id"@, "item"@]
}

/// The parts of a command on an item that exists, but for its new content.
pub open spec fn target_keys() -> Seq<Seq<char>> {
    seq!["operation"@, "command_id"@, "item_id"@, "expected_revision"@]
}

/// The parts of a command that replaces an item.
pub open spec fn replacement_keys() -> Seq<Seq<char>> {
    target_keys().push("item"@)
}

/// The operation that a command names.
pub open spec fn operation_of(value: Json) -> Option<ProposalOperation> {
    let name = part(value, 0, "operation"@);
    if is_text(name, "create_item"@) {
        Some(ProposalOperation::CreateItem)
    } else if is_text(name, "replace_item"@) {
        Some(ProposalOperation::ReplaceItem)
    } else if is_text(name, "trash_item"@) {
        Some(ProposalOperation::TrashItem)
    } else if is_text(name, "restore_item"@) {
        Some(ProposalOperation::RestoreItem)
    } else {
        None
    }
}

/// The value that holds the item content of a command.
pub open spec fn content_of(value: Json) -> Option<Json> {
    match operation_of(value) {
        Some(ProposalOperation::CreateItem) => part(value, 2, "item"@),
        Some(ProposalOperation::ReplaceItem) => part(value, 4, "item"@),
        _ => None,
    }
}

/// The command that a value stands for, given what could be read of its item: an
/// object, or an array of the same parts in their order. A value with a part that does
/// not belong to the command stands for none.
pub open spec fn command_of(value: Json, item: ReadItem) -> Option<ProposalCommand> {
    let id = uuid_value(part(value, 1, "command_id"@));
    let item_id = uuid_value(part(value, 2, "item_id"@));
    let revision = revision_value(part(value, 3, "expected_revision"@));
    match operation_of(value) {
        Some(ProposalOperation::CreateItem) => match item {
            ReadItem::New(content) if id is Some && content_of(value) is Some && only_parts(
                value,
                creation_keys(),
            ) => Some(ProposalCommand::CreateItem { command_id: id->0, item: content }),
            _ => None,
        },
        Some(ProposalOperation::ReplaceItem) => match item {
            ReadItem::Replacement(content) if id is Some && item_id is Some && revision is Some
                && content_of(value) is Some && only_parts(value, replacement_keys()) => Some(
                ProposalCommand::ReplaceItem {
                    command_id: id->0,
                    item_id: item_id->0,
                    expected_revision: revision->0,
                    item: content,
                },
            ),
            _ => None,
        },
        Some(operation) if id is Some && item_id is Some && revision is Some && only_parts(
            value,
            target_keys(),
        ) => if operation == ProposalOperation::TrashItem {
            Some(
                ProposalCommand::TrashItem {
                    command_id: id->0,
                    item_id: item_id->0,
                    expected_revision: revision->0,
                },
            )
        } else {
            Some(
                ProposalCommand::RestoreItem {
                    command_id: id->0,
                    item_id: item_id->0,
                    expected_revision: revision->0,
                },
            )
        },
        _ => None,
    }
}

fn has_only_keys(members: &Vec<(String, Json)>, keys: &Vec<&'static str>) -> (result: bool)
    ensures
        result == only_keys(members@, keys@.map_values(|key: &'static str| key@)),
{
    let ghost allowed = keys@.map_values(|key: &'static str| key@);
    let mut i: usize = 0;
    while i < members.len()
        invariant
            i <= members.len(),
            allowed == keys@.map_values(|key: &'static str| key@),
            forall|j: int| 0 <= j < i ==> allowed.contains((#[trigger] members@[j]).0@),
        decreases members.len() - i,
    {
        let mut found: bool = false;
        let mut k: usize = 0;
        while k < keys.len()
            invariant
                k <= keys.len(),
                i < members.len(),
                allowed == keys@.map_values(|key: &'static str| key@),
                found ==> allowed.contains(members@[i as int].0@),
                !found ==> forall|j: int|
                    0 <= j < k ==> #[trigger] allowed[j] != members@[i as int].0@,
            decreases keys.len() - k,
        {
            if same_text(members[i].0.as_str(), keys[k]) {
                assert(allowed[k as int] == members@[i as int].0@);
                found = true;
            }
            k = k + 1;
        }
        if !found {
            assert(!allowed.contains(members@[i as int].0@));
            return false;
        }
        i = i + 1;
    }
    true
}

fn has_only_parts(value: &Json, keys: &Vec<&'static str>) -> (result: bool)
    ensures
        result == only_parts(*value, keys@.map_values(|key: &'static str| key@)),
{
    match value {
        Json::Object(members) => has_only_keys(members, keys),
        Json::Array(values) => values.len() == keys.len(),
        _ => false,
    }
}

fn read_part<'a>(value: &'a Json, place: usize, key: &str) -> (result: Option<&'a Json>)
    ensures
        match result {
            Some(found) => part(*value, place as int, key@) == Some(*found),
            None => part(*value, place as int, key@) is None,
        },
{
    match value {
        Json::Object(_) => value.get(key),
        Json::Array(values) => if place < values.len() {
            Some(&values[place])
        } else {
            None
        },
        _ => None,
    }
}

fn read_uuid(value: &Json, place: usize, key: &str) -> (result: Option<Uuid>)
    ensures
        result == uuid_value(part(*value, place as int, key@)),
{
    match read_part(value, place, key) {
        Some(Json::Text(text)) => parse_uuid(text.as_str()),
        _ => None,
    }
}

fn read_revision(value: &Json, place: usize, key: &str) -> (result: Option<u64>)
    ensures
        result == revision_value(part(*value, place as int, key@)),
{
    match read_part(value, place, key) {
        Some(number) => number.as_u64(),
        None => None,
    }
}

fn read_operation(value: &Json) -> (result: Option<ProposalOperation>)
    ensures
        result == operation_of(*value),
{
    let name: &str = match read_part(value, 0, "operation") {
        Some(Json::Text(found)) => found.as_str(),
        _ => {
            return None;
        },
    };
    if same_text(name, "create_item") {
        Some(ProposalOperation::CreateItem)
    } else if same_text(name, "replace_item") {
        Some(ProposalOperation::ReplaceItem)
    } else if same_text(name, "trash_item") {
        Some(ProposalOperation::TrashItem)
    } else if same_text(name, "restore_item") {
        Some(ProposalOperation::RestoreItem)
    } else {
        None
    }
}

/// What a command does with its item content, and the value that holds the content.
pub fn command_content(value: &Json) -> (result: Option<(ProposalOperation, &Json)>)
    ensures
        match result {
            Some((operation, content)) => operation_of(*value) == Some(operation) && content_of(
                *value,
            ) == Some(*content),
            None => content_of(*value) is None,
        },
{
    match read_operation(value) {
        Some(ProposalOperation::CreateItem) => match read_part(value, 2, "item") {
            Some(content) => Some((ProposalOperation::CreateItem, content)),
            None => None,
        },
        Some(ProposalOperation::ReplaceItem) => match read_part(value, 4, "item") {
            Some(content) => Some((ProposalOperation::ReplaceItem, content)),
            None => None,
        },
        _ => None,
    }
}

/// The command that a value stands for, given what could be read of its item.
pub fn read_command(value: &Json, item: ReadItem) -> (result: Option<ProposalCommand>)
    ensures
        result == command_of(*value, item),
{
    let operation: ProposalOperation = match read_operation(value) {
        Some(operation) => operation,
        None => {
            return None;
        },
    };
    let has_item: bool = command_content(value).is_some();
    let keys: Vec<&'static str> = match operation {
        ProposalOperation::CreateItem => vec!["operation", "command_id", "item"],
        ProposalOperation::ReplaceItem => vec![
            "operation",
            "command_id",
            "item_id",
            "expected_revision",
            "item",
        ],
        _ => vec!["operation", "command_id", "item_id", "expected_revision"],
    };
    let expected: bool = has_only_parts(value, &keys);
    proof {
        let names = keys@.map_values(|key: &'static str| key@);
        match operation {
            ProposalOperation::CreateItem => assert(names =~= creation_keys()),
            ProposalOperation::ReplaceItem => assert(names =~= replacement_keys()),
            _ => assert(names =~= target_keys()),
        }
    }
    if !expected {
        return None;
    }
    let command_id: Uuid = match read_uuid(value, 1, "command_id") {
        Some(id) => id,
        None => {
            return None;
        },
    };
    if operation == ProposalOperation::CreateItem {
        return match item {
            ReadItem::New(content) if has_item => Some(
                ProposalCommand::CreateItem { command_id, item: content },
            ),
            _ => None,
        };
    }
    match (read_uuid(value, 2, "item_id"), read_revision(value, 3, "expected_revision")) {
        (Some(item_id), Some(expected_revision)) => match operation {
            ProposalOperation::TrashItem => Some(
                ProposalCommand::TrashItem { command_id, item_id, expected_revision },
            ),
            ProposalOperation::RestoreItem => Some(
                ProposalCommand::RestoreItem { command_id, item_id, expected_revision },
            ),
            _ => match item {
                ReadItem::Replacement(content) if has_item => Some(
                    ProposalCommand::ReplaceItem {
                        command_id,
                        item_id,
                        expected_revision,
                        item: content,
                    },
                ),
                _ => None,
            },
        },
        _ => None,
    }
}

/// The item that was read for the command at `k`.
pub open spec fn item_at(items: Seq<ReadItem>, k: int) -> ReadItem {
    if 0 <= k < items.len() {
        items[k]
    } else {
        ReadItem::Absent
    }
}

/// Whether a value names the one schema: its identifier, or an object whose only member
/// stands under the identifier and is null.
pub open spec fn names_schema(value: Option<Json>) -> bool {
    match value {
        Some(Json::Text(name)) => name@ == schema_name(),
        Some(Json::Object(members)) => members@.len() == 1 && members@[0].0@ == schema_name()
            && members@[0].1 is Null,
        _ => false,
    }
}

/// The values that hold the commands of a payload with the shape of a change set: an
/// object of exactly a schema and an array of commands, or an array of these two.
pub open spec fn payload_values(payload: Json) -> Option<Seq<Json>> {
    match part(payload, 1, "commands"@) {
        Some(Json::Array(values)) if only_parts(payload, seq!["schema"@, "commands"@])
            && names_schema(part(payload, 0, "schema"@)) => Some(values@),
        _ => None,
    }
}

/// Whether a payload has the shape of a change set, and each of the values in it stands
/// for a command.
pub open spec fn payload_reads(payload: Json, items: Seq<ReadItem>) -> bool {
    match payload_values(payload) {
        Some(values) => forall|k: int|
            0 <= k < values.len() ==> command_of(#[trigger] values[k], item_at(items, k)) is Some,
        None => false,
    }
}

/// The commands of a payload that has the shape of a change set.
pub open spec fn payload_commands(payload: Json, items: Seq<ReadItem>) -> Seq<ProposalCommand> {
    match payload_values(payload) {
        Some(values) => Seq::new(
            values.len(),
            |k: int| command_of(values[k], item_at(items, k))->0,
        ),
        None => Seq::empty(),
    }
}

/// The values that hold the commands of a payload, if it has the shape of a change set.
pub fn command_values(payload: &Json) -> (result: Option<&Vec<Json>>)
    ensures
        match result {
            Some(values) => payload_values(*payload) == Some(values@),
            None => payload_values(*payload) is None,
        },
{
    let keys: Vec<&'static str> = vec!["schema", "commands"];
    let expected: bool = has_only_parts(payload, &keys);
    proof {
        assert(keys@.map_values(|key: &'static str| key@) =~= seq!["schema"@, "commands"@]);
    }
    let named: bool = match read_part(payload, 0, "schema") {
        Some(Json::Text(name)) => same_text(name.as_str(), "dayweave.proposal-change-set/1"),
        Some(Json::Object(members)) => members.len() == 1 && same_text(
            members[0].0.as_str(),
            "dayweave.proposal-change-set/1",
        ) && matches!(members[0].1, Json::Null),
        _ => false,
    };
    match read_part(payload, 1, "commands") {
        Some(Json::Array(values)) if expected && named => Some(values),
        _ => None,
    }
}

impl ProposalChangeSet {
    /// Reads the payload of a proposal as a change set: its parts, and those of each
    /// command, stand in an object or, in their order, in an array. Payloads of any other
    /// shape are refused, and so is a batch that cannot be carried out. `items` holds, for
    /// each command, the item content that could be read from it.
    pub fn from_payload(payload: &Json, items: Vec<ReadItem>) -> (result: Result<
        ProposalChangeSet,
        ProposalChangeSetError,
    >)
        ensures
            match result {
                Ok(set) => {
                    &&& payload_reads(*payload, items@)
                    &&& set.commands@ == payload_commands(*payload, items@)
                    &&& well_formed(set.commands@)
                },
                Err(error) => {
                    &&& error == ProposalChangeSetError::InvalidPayload
                    &&& !(payload_reads(*payload, items@) && well_formed(
                        payload_commands(*payload, items@),
                    ))
                },
            },
    {
        let values: &Vec<Json> = match command_values(payload) {
            Some(values) => values,
            None => {
                return Err(ProposalChangeSetError::InvalidPayload);
            },
        };
        let ghost given = items@;
        let mut rest: Vec<ReadItem> = items;
        let mut commands: Vec<ProposalCommand> = Vec::new();
        let mut k: usize = 0;
        while k < values.len()
            invariant
                k <= values.len(),
                payload_values(*payload) == Some(values@),
                given == items@,
                k < given.len() ==> rest@ == given.skip(k as int),
                k >= given.len() ==> rest@.len() == 0,
                commands@.len() == k,
                forall|j: int|
                    0 <= j < k ==> command_of(#[trigger] values@[j], item_at(given, j)) == Some(
                        commands@[j],
                    ),
            decreases values.len() - k,
        {
            let item: ReadItem = if rest.len() > 0 {
                rest.remove(0)
            } else {
                ReadItem::Absent
            };
            proof {
                assert(item == item_at(given, k as int));
                if k + 1 < given.len() {
                    assert(rest@ =~= given.skip(k + 1));
                }
            }
            match read_command(&values[k], item) {
                Some(command) => {
                    commands.push(command);
                },
                None => {
                    assert(command_of(values@[k as int], item_at(given, k as int)) is None);
                    return Err(ProposalChangeSetError::InvalidPayload);
                },
            }
            k = k + 1;
        }
        assert(commands@ =~= payload_commands(*payload, given));
        match ProposalChangeSet::new(commands) {
            Ok(set) => Ok(set),
            Err(_) => Err(ProposalChangeSetError::InvalidPayload),
        }
    }
}

} // verus!
