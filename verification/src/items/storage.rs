//! Items as the database stores them, and what is recorded of a change.
use vstd::prelude::*;
use vstd::string::StringExecFns;

use crate::hashing::same_bytes_and_hash;
use crate::items::commands::{
    change_kind_name, operation_event_name, ActiveExecution, ChangeKind, ItemOperation,
};
use crate::items::model::{
    BlockedReasonKind, DeadlineKind, DeadlineStrength, Dependency, DurationKind, DurationSource,
    Item, ItemKind, ItemPolicy, ItemRepositoryError, ItemStatus, SplitPolicy,
};
use crate::items::names::{
    blocked_reason_kind_name, deadline_kind_name, deadline_strength_name, duration_kind_name,
    duration_source_name, kind_name, parse_blocked_reason_kind, parse_deadline_kind,
    parse_deadline_strength, parse_duration_kind, parse_duration_source, parse_kind, parse_status,
    split_columns, split_policy, status_name,
};
use crate::json::Json;
use crate::outside::uuid_text;
use crate::text::{decimal, same_text};
use crate::time::{CalendarDate, Instant, Uuid};

verus! {

/// The columns of an item, with its place in the tree and its predecessors.
#[derive(Debug)]
pub struct ItemRow {
    pub id: Uuid,
    pub is_sensitive: bool,
    pub kind: String,
    pub status: String,
    pub title: String,
    pub notes: Option<String>,
    pub timezone_name: String,
    pub duration_kind: String,
    pub duration_seconds: Option<i32>,
    pub duration_min_seconds: Option<i32>,
    pub duration_max_seconds: Option<i32>,
    pub duration_source: Option<String>,
    pub deadline_kind: String,
    pub deadline_date: Option<CalendarDate>,
    pub deadline_at: Option<Instant>,
    pub deadline_strength: Option<String>,
    pub deadline_soft_weight: Option<i32>,
    pub earliest_start_at: Option<Instant>,
    pub recurrence: Option<Json>,
    pub constraints: Json,
    /// The predecessors, if they can be read.
    pub dependencies: Option<Vec<Dependency>>,
    pub has_own_effort: bool,
    pub split_allowed: bool,
    pub minimum_chunk_seconds: Option<i32>,
    pub maximum_chunk_seconds: Option<i32>,
    pub importance: i16,
    pub urgency: i16,
    pub parent_item_id: Option<Uuid>,
    pub effective_sibling_order: i32,
    /// Whether some item outside the trash has this item as its parent.
    pub has_children: bool,
    pub blocked_reason_kind: Option<String>,
    pub blocked_by_item_id: Option<Uuid>,
    pub blocked_reason: Option<String>,
    pub revision: i64,
    pub created_at: Instant,
    pub updated_at: Instant,
    pub completed_at: Option<Instant>,
    pub trashed_at: Option<Instant>,
}

/// Whether an optional number is read from an optional column.
pub open spec fn reads_count(read: Option<u32>, column: Option<i32>) -> bool {
    match (read, column) {
        (Some(value), Some(stored)) => value == stored,
        (None, None) => true,
        _ => false,
    }
}

/// Whether an optional column holds no negative number.
pub open spec fn not_negative(column: Option<i32>) -> bool {
    column is Some ==> column->0 >= 0
}

/// Reads an optional number.
fn read_count(column: Option<i32>) -> (result: Result<Option<u32>, ItemRepositoryError>)
    ensures
        match result {
            Ok(read) => not_negative(column) && reads_count(read, column),
            Err(error) => !not_negative(column) && error == ItemRepositoryError::Internal,
        },
{
    match column {
        Some(stored) => if stored >= 0 {
            Ok(Some(stored as u32))
        } else {
            Err(ItemRepositoryError::Internal)
        },
        None => Ok(None),
    }
}

/// Whether the split policy of an item is read from its columns.
pub open spec fn split_reads(policy: SplitPolicy, row: ItemRow) -> bool {
    match policy {
        SplitPolicy::Indivisible => !row.split_allowed,
        SplitPolicy::Splittable { minimum_chunk_seconds, maximum_chunk_seconds } => {
            &&& row.split_allowed
            &&& row.minimum_chunk_seconds is Some
            &&& row.minimum_chunk_seconds->0 == minimum_chunk_seconds
            &&& row.maximum_chunk_seconds is Some
            &&& row.maximum_chunk_seconds->0 == maximum_chunk_seconds
        },
    }
}

/// Whether the source of a duration is read from its column.
pub open spec fn source_reads(read: Option<DurationSource>, column: Option<String>) -> bool {
    match (read, column) {
        (Some(value), Some(text)) => text@ == crate::items::names::duration_source_name_text(value),
        (None, None) => true,
        _ => false,
    }
}

/// Whether the strength of a deadline is read from its column.
pub open spec fn strength_reads(read: Option<DeadlineStrength>, column: Option<String>) -> bool {
    match (read, column) {
        (Some(value), Some(text)) => text@ == crate::items::names::deadline_strength_name_text(
            value,
        ),
        (None, None) => true,
        _ => false,
    }
}

/// Whether the kind of a blocker is read from its column.
pub open spec fn blocker_reads(read: Option<BlockedReasonKind>, column: Option<String>) -> bool {
    match (read, column) {
        (Some(value), Some(text)) => text@ == crate::items::names::blocked_reason_kind_name_text(
            value,
        ),
        (None, None) => true,
        _ => false,
    }
}

/// Whether an item is read from its columns.
pub open spec fn item_reads(policy: ItemPolicy, item: Item, row: ItemRow) -> bool {
    &&& item.id == row.id
    &&& item.is_sensitive == row.is_sensitive
    &&& row.kind@ == crate::items::names::kind_name_text(item.kind)
    &&& row.status@ == crate::items::names::status_name_text(item.status)
    &&& item.title == row.title
    &&& item.notes == row.notes
    &&& item.timezone_name == row.timezone_name
    &&& row.duration_kind@ == crate::items::names::duration_kind_name_text(item.duration_kind)
    &&& reads_count(item.duration_seconds, row.duration_seconds)
    &&& reads_count(item.duration_min_seconds, row.duration_min_seconds)
    &&& reads_count(item.duration_max_seconds, row.duration_max_seconds)
    &&& source_reads(item.duration_source, row.duration_source)
    &&& row.deadline_kind@ == crate::items::names::deadline_kind_name_text(item.deadline_kind)
    &&& item.deadline_date == row.deadline_date
    &&& item.deadline_at == row.deadline_at
    &&& strength_reads(item.deadline_strength, row.deadline_strength)
    &&& reads_count(item.deadline_soft_weight, row.deadline_soft_weight)
    &&& item.earliest_start_at == row.earliest_start_at
    &&& item.recurrence == row.recurrence
    &&& item.constraints == row.constraints
    &&& row.dependencies == Some(item.dependencies)
    &&& item.has_own_effort == row.has_own_effort
    &&& split_reads(item.split_policy, row)
    &&& item.importance == row.importance
    &&& item.urgency == row.urgency
    &&& item.parent_id == row.parent_item_id
    &&& item.sibling_order == row.effective_sibling_order
    &&& blocker_reads(item.blocked_reason_kind, row.blocked_reason_kind)
    &&& item.blocked_by_item_id == row.blocked_by_item_id
    &&& item.blocked_reason == row.blocked_reason
    &&& item.is_executable == policy.execution_allowed(
        item.kind,
        row.has_own_effort,
        row.trashed_at is Some,
        row.has_children,
    )
    &&& item.revision == row.revision
    &&& item.created_at == row.created_at
    &&& item.updated_at == row.updated_at
    &&& item.completed_at == row.completed_at
    &&& item.deleted_at == row.trashed_at
}

fn read_source(column: &Option<String>) -> (result: Result<
    Option<DurationSource>,
    ItemRepositoryError,
>)
    ensures
        match result {
            Ok(read) => source_reads(read, *column),
            Err(error) => error == ItemRepositoryError::Internal && forall|
                read: Option<DurationSource>,
            |
                !source_reads(read, *column),
        },
{
    match column {
        Some(text) => Ok(Some(parse_duration_source(text.as_str())?)),
        None => Ok(None),
    }
}

fn read_strength(column: &Option<String>) -> (result: Result<
    Option<DeadlineStrength>,
    ItemRepositoryError,
>)
    ensures
        match result {
            Ok(read) => strength_reads(read, *column),
            Err(error) => error == ItemRepositoryError::Internal && forall|
                read: Option<DeadlineStrength>,
            |
                !strength_reads(read, *column),
        },
{
    match column {
        Some(text) => Ok(Some(parse_deadline_strength(text.as_str())?)),
        None => Ok(None),
    }
}

fn read_blocker(column: &Option<String>) -> (result: Result<
    Option<BlockedReasonKind>,
    ItemRepositoryError,
>)
    ensures
        match result {
            Ok(read) => blocker_reads(read, *column),
            Err(error) => error == ItemRepositoryError::Internal && forall|
                read: Option<BlockedReasonKind>,
            |
                !blocker_reads(read, *column),
        },
{
    match column {
        Some(text) => Ok(Some(parse_blocked_reason_kind(text.as_str())?)),
        None => Ok(None),
    }
}

/// Reads an item. Columns that hold no item are an error.
pub fn item_from_row(policy: &ItemPolicy, row: ItemRow) -> (result: Result<
    Item,
    ItemRepositoryError,
>)
    ensures
        match result {
            Ok(item) => item_reads(*policy, item, row),
            Err(error) => error == ItemRepositoryError::Internal && forall|item: Item|
                !item_reads(*policy, item, row),
        },
{
    let duration_kind: DurationKind = parse_duration_kind(row.duration_kind.as_str())?;
    let split: SplitPolicy = match split_policy(
        row.split_allowed,
        row.minimum_chunk_seconds,
        row.maximum_chunk_seconds,
    ) {
        Ok(split) => split,
        Err(error) => {
            assert(forall|item: Item| item_reads(*policy, item, row) ==> split_reads(
                item.split_policy,
                row,
            ));
            return Err(error);
        },
    };
    let kind: ItemKind = parse_kind(row.kind.as_str())?;
    let status: ItemStatus = parse_status(row.status.as_str())?;
    let duration_seconds: Option<u32> = read_count(row.duration_seconds)?;
    let duration_min_seconds: Option<u32> = read_count(row.duration_min_seconds)?;
    let duration_max_seconds: Option<u32> = read_count(row.duration_max_seconds)?;
    let duration_source: Option<DurationSource> = read_source(&row.duration_source)?;
    let deadline_kind: DeadlineKind = parse_deadline_kind(row.deadline_kind.as_str())?;
    let deadline_strength: Option<DeadlineStrength> = read_strength(&row.deadline_strength)?;
    let deadline_soft_weight: Option<u32> = read_count(row.deadline_soft_weight)?;
    let blocked_reason_kind: Option<BlockedReasonKind> = read_blocker(&row.blocked_reason_kind)?;
    if row.importance < 0 || row.importance > 255 || row.urgency < 0 || row.urgency > 255
        || row.effective_sibling_order < 0 || row.revision < 0 {
        return Err(ItemRepositoryError::Internal);
    }
    let dependencies: Vec<Dependency> = match row.dependencies {
        Some(dependencies) => dependencies,
        None => {
            return Err(ItemRepositoryError::Internal);
        },
    };
    let is_executable: bool = row.trashed_at.is_none() && !row.has_children
        && policy.has_executable_component(kind, row.has_own_effort);
    Ok(
        Item {
            id: row.id,
            is_sensitive: row.is_sensitive,
            kind,
            status,
            title: row.title,
            notes: row.notes,
            timezone_name: row.timezone_name,
            duration_kind,
            duration_seconds,
            duration_min_seconds,
            duration_max_seconds,
            duration_source,
            deadline_kind,
            deadline_date: row.deadline_date,
            deadline_at: row.deadline_at,
            deadline_strength,
            deadline_soft_weight,
            earliest_start_at: row.earliest_start_at,
            recurrence: row.recurrence,
            constraints: row.constraints,
            dependencies,
            has_own_effort: row.has_own_effort,
            split_policy: split,
            importance: row.importance as u8,
            urgency: row.urgency as u8,
            parent_id: row.parent_item_id,
            sibling_order: row.effective_sibling_order as u32,
            blocked_reason_kind,
            blocked_by_item_id: row.blocked_by_item_id,
            blocked_reason: row.blocked_reason,
            is_executable,
            revision: row.revision as u64,
            created_at: row.created_at,
            updated_at: row.updated_at,
            completed_at: row.completed_at,
            deleted_at: row.trashed_at,
        },
    )
}

/// Any failure of the storage is an internal error.
pub fn internal<T>(_error: T) -> (result: ItemRepositoryError)
    ensures
        result == ItemRepositoryError::Internal,
{
    ItemRepositoryError::Internal
}

/// A revision as the database stores it.
pub fn revision_to_i64(revision: u64) -> (result: Result<i64, ItemRepositoryError>)
    ensures
        match result {
            Ok(stored) => stored == revision,
            Err(error) => revision > i64::MAX && error == ItemRepositoryError::Internal,
        },
{
    match crate::numbers::signed(revision) {
        Some(stored) => Ok(stored),
        None => Err(ItemRepositoryError::Internal),
    }
}

/// The columns of an item that do not hold its fields as they are: names for what has a
/// few values, and numbers in the widths of the database.
#[derive(Debug)]
pub struct ItemColumns {
    pub kind: &'static str,
    pub status: &'static str,
    pub duration_kind: &'static str,
    pub duration_seconds: Option<i32>,
    pub duration_min_seconds: Option<i32>,
    pub duration_max_seconds: Option<i32>,
    pub duration_source: Option<&'static str>,
    pub deadline_kind: &'static str,
    pub deadline_strength: Option<&'static str>,
    pub deadline_soft_weight: Option<i32>,
    pub split_allowed: bool,
    pub minimum_chunk_seconds: Option<i32>,
    pub maximum_chunk_seconds: Option<i32>,
    pub importance: i16,
    pub urgency: i16,
    pub revision: i64,
    pub sibling_order: i32,
    pub blocked_reason_kind: Option<&'static str>,
}

/// Whether an optional number fits its column.
pub open spec fn count_fits(value: Option<u32>) -> bool {
    value is Some ==> value->0 <= i32::MAX
}

/// Whether the numbers of an item fit their columns, as the rules for item content see to.
pub open spec fn item_storable(item: Item) -> bool {
    &&& count_fits(item.duration_seconds)
    &&& count_fits(item.duration_min_seconds)
    &&& count_fits(item.duration_max_seconds)
    &&& count_fits(item.deadline_soft_weight)
    &&& crate::items::names::split_fits(item.split_policy)
    &&& item.sibling_order <= i32::MAX
}

/// Whether the columns are those of an item.
pub open spec fn columns_fit(item: Item, columns: ItemColumns) -> bool {
    &&& columns.kind@ == crate::items::names::kind_name_text(item.kind)
    &&& columns.status@ == crate::items::names::status_name_text(item.status)
    &&& columns.duration_kind@ == crate::items::names::duration_kind_name_text(item.duration_kind)
    &&& reads_count(item.duration_seconds, columns.duration_seconds)
    &&& reads_count(item.duration_min_seconds, columns.duration_min_seconds)
    &&& reads_count(item.duration_max_seconds, columns.duration_max_seconds)
    &&& match (item.duration_source, columns.duration_source) {
        (Some(value), Some(name)) => name@ == crate::items::names::duration_source_name_text(value),
        (None, None) => true,
        _ => false,
    }
    &&& columns.deadline_kind@ == crate::items::names::deadline_kind_name_text(item.deadline_kind)
    &&& match (item.deadline_strength, columns.deadline_strength) {
        (Some(value), Some(name)) => name@ == crate::items::names::deadline_strength_name_text(
            value,
        ),
        (None, None) => true,
        _ => false,
    }
    &&& reads_count(item.deadline_soft_weight, columns.deadline_soft_weight)
    &&& match item.split_policy {
        SplitPolicy::Indivisible => {
            &&& !columns.split_allowed
            &&& columns.minimum_chunk_seconds is None
            &&& columns.maximum_chunk_seconds is None
        },
        SplitPolicy::Splittable { minimum_chunk_seconds, maximum_chunk_seconds } => {
            &&& columns.split_allowed
            &&& reads_count(Some(minimum_chunk_seconds), columns.minimum_chunk_seconds)
            &&& reads_count(Some(maximum_chunk_seconds), columns.maximum_chunk_seconds)
        },
    }
    &&& columns.importance == item.importance
    &&& columns.urgency == item.urgency
    &&& columns.revision == item.revision
    &&& columns.sibling_order == item.sibling_order
    &&& match (item.blocked_reason_kind, columns.blocked_reason_kind) {
        (Some(value), Some(name)) => name@ == crate::items::names::blocked_reason_kind_name_text(
            value,
        ),
        (None, None) => true,
        _ => false,
    }
}

fn count_column(value: Option<u32>) -> (result: Option<i32>)
    requires
        count_fits(value),
    ensures
        reads_count(value, result),
{
    match value {
        Some(count) => Some(count as i32),
        None => None,
    }
}

/// The columns of an item. A revision that the database cannot hold is an error.
pub fn item_columns(item: &Item) -> (result: Result<ItemColumns, ItemRepositoryError>)
    requires
        item_storable(*item),
    ensures
        match result {
            Ok(columns) => columns_fit(*item, columns),
            Err(error) => item.revision > i64::MAX && error == ItemRepositoryError::Internal,
        },
{
    let (split_allowed, minimum_chunk_seconds, maximum_chunk_seconds): (
        bool,
        Option<i32>,
        Option<i32>,
    ) = split_columns(&item.split_policy);
    let revision: i64 = revision_to_i64(item.revision)?;
    Ok(
        ItemColumns {
            kind: kind_name(item.kind),
            status: status_name(item.status),
            duration_kind: duration_kind_name(item.duration_kind),
            duration_seconds: count_column(item.duration_seconds),
            duration_min_seconds: count_column(item.duration_min_seconds),
            duration_max_seconds: count_column(item.duration_max_seconds),
            duration_source: match item.duration_source {
                Some(source) => Some(duration_source_name(source)),
                None => None,
            },
            deadline_kind: deadline_kind_name(item.deadline_kind),
            deadline_strength: match item.deadline_strength {
                Some(strength) => Some(deadline_strength_name(strength)),
                None => None,
            },
            deadline_soft_weight: count_column(item.deadline_soft_weight),
            split_allowed,
            minimum_chunk_seconds,
            maximum_chunk_seconds,
            importance: item.importance as i16,
            urgency: item.urgency as i16,
            revision,
            sibling_order: item.sibling_order as i32,
            blocked_reason_kind: match item.blocked_reason_kind {
                Some(kind) => Some(blocked_reason_kind_name(kind)),
                None => None,
            },
        },
    )
}

/// Whether a text column holds a name that was stored.
pub open spec fn same_name(stored: Option<&'static str>, column: Option<String>) -> bool {
    match (stored, column) {
        (Some(name), Some(text)) => name@ == text@,
        (None, None) => true,
        _ => false,
    }
}

/// Whether a row holds the columns of an item that was stored, and its other fields as
/// they are.
pub open spec fn row_holds(item: Item, columns: ItemColumns, row: ItemRow) -> bool {
    &&& row.id == item.id
    &&& row.is_sensitive == item.is_sensitive
    &&& row.kind@ == columns.kind@
    &&& row.status@ == columns.status@
    &&& row.title == item.title
    &&& row.notes == item.notes
    &&& row.timezone_name == item.timezone_name
    &&& row.duration_kind@ == columns.duration_kind@
    &&& row.duration_seconds == columns.duration_seconds
    &&& row.duration_min_seconds == columns.duration_min_seconds
    &&& row.duration_max_seconds == columns.duration_max_seconds
    &&& same_name(columns.duration_source, row.duration_source)
    &&& row.deadline_kind@ == columns.deadline_kind@
    &&& row.deadline_date == item.deadline_date
    &&& row.deadline_at == item.deadline_at
    &&& same_name(columns.deadline_strength, row.deadline_strength)
    &&& row.deadline_soft_weight == columns.deadline_soft_weight
    &&& row.earliest_start_at == item.earliest_start_at
    &&& row.recurrence == item.recurrence
    &&& row.constraints == item.constraints
    &&& row.dependencies == Some(item.dependencies)
    &&& row.has_own_effort == item.has_own_effort
    &&& row.split_allowed == columns.split_allowed
    &&& row.minimum_chunk_seconds == columns.minimum_chunk_seconds
    &&& row.maximum_chunk_seconds == columns.maximum_chunk_seconds
    &&& row.importance == columns.importance
    &&& row.urgency == columns.urgency
    &&& row.parent_item_id == item.parent_id
    &&& row.effective_sibling_order == columns.sibling_order
    &&& same_name(columns.blocked_reason_kind, row.blocked_reason_kind)
    &&& row.blocked_by_item_id == item.blocked_by_item_id
    &&& row.blocked_reason == item.blocked_reason
    &&& row.revision == columns.revision
    &&& row.created_at == item.created_at
    &&& row.updated_at == item.updated_at
    &&& row.completed_at == item.completed_at
    &&& row.trashed_at == item.deleted_at
}

/// What is read of an item that was stored is the item: its columns hold an item, and no
/// other one. Whether work on it can start is not stored, but follows from whether it has
/// children.
pub proof fn stored_item_reads_back(
    policy: ItemPolicy,
    item: Item,
    columns: ItemColumns,
    row: ItemRow,
    read: Item,
)
    requires
        columns_fit(item, columns),
        row_holds(item, columns, row),
    ensures
        item_reads(policy, read, row) <==> read == (Item {
            is_executable: policy.execution_allowed(
                item.kind,
                item.has_own_effort,
                item.deleted_at is Some,
                row.has_children,
            ),
            ..item
        }),
{
    crate::items::names::kind_name_text_is_injective(item.kind, read.kind);
    crate::items::names::status_name_text_is_injective(item.status, read.status);
    crate::items::names::duration_kind_name_text_is_injective(
        item.duration_kind,
        read.duration_kind,
    );
    crate::items::names::deadline_kind_name_text_is_injective(
        item.deadline_kind,
        read.deadline_kind,
    );
    if item.duration_source is Some && read.duration_source is Some {
        crate::items::names::duration_source_name_text_is_injective(
            item.duration_source->0,
            read.duration_source->0,
        );
    }
    if item.deadline_strength is Some && read.deadline_strength is Some {
        crate::items::names::deadline_strength_name_text_is_injective(
            item.deadline_strength->0,
            read.deadline_strength->0,
        );
    }
    if item.blocked_reason_kind is Some && read.blocked_reason_kind is Some {
        crate::items::names::blocked_reason_kind_name_text_is_injective(
            item.blocked_reason_kind->0,
            read.blocked_reason_kind->0,
        );
    }
}

/// That an item went to the trash.
#[derive(Clone, Copy, Debug, PartialEq, Eq, Structural)]
pub struct ItemTombstone {
    pub id: Uuid,
    pub revision: u64,
    pub deleted_at: Instant,
    pub parent_id: Option<Uuid>,
}

/// What is recorded of a change of an item beside the item itself.
#[derive(Debug)]
pub struct MutationRecord {
    /// What the delta carries instead of the item, if it does not carry the item.
    pub tombstone: Option<ItemTombstone>,
    pub change_name: &'static str,
    pub revision: i64,
    pub event: &'static str,
    /// The key under which subscribers are told of the change once.
    pub deduplication_key: String,
    pub base_revision: Option<i64>,
}

/// The key under which subscribers are told of a change of something once.
pub open spec fn event_key(event: Seq<char>, id: Uuid, revision: u64) -> Seq<char> {
    event + ":"@ + crate::outside::text_of_uuid(id) + ":"@ + crate::text::decimal_text(
        revision as nat,
    )
}

/// The key under which subscribers are told of a change of something once.
pub fn event_deduplication_key(event: &str, id: Uuid, revision: u64) -> (result: String)
    ensures
        result@ == event_key(event@, id, revision),
{
    let mut key: String = event.to_owned();
    key.append(":");
    let id_text: String = uuid_text(id);
    key.append(id_text.as_str());
    key.append(":");
    let number: String = decimal(revision);
    key.append(number.as_str());
    key
}

/// What is recorded of a change of an item. It fails where a revision does not fit, and
/// where an item is to be gone that is not in the trash.
pub fn mutation_record(
    item: &Item,
    operation: ItemOperation,
    base_revision: Option<u64>,
    kind: ChangeKind,
) -> (result: Result<MutationRecord, ItemRepositoryError>)
    ensures
        match result {
            Ok(record) => {
                &&& record.tombstone == (if kind == ChangeKind::Tombstone {
                    Some(
                        ItemTombstone {
                            id: item.id,
                            revision: item.revision,
                            deleted_at: item.deleted_at->0,
                            parent_id: item.parent_id,
                        },
                    )
                } else {
                    None
                })
                &&& kind == ChangeKind::Tombstone ==> item.deleted_at is Some
                &&& record.change_name@ == (match kind {
                    ChangeKind::Upsert => "upsert"@,
                    ChangeKind::Tombstone => "tombstone"@,
                })
                &&& record.revision == item.revision
                &&& record.event@ == crate::items::commands::operation_event(operation)
                &&& record.deduplication_key@ == event_key(
                    crate::items::commands::operation_event(operation),
                    item.id,
                    item.revision,
                )
                &&& match (record.base_revision, base_revision) {
                    (Some(stored), Some(base)) => stored == base,
                    (None, None) => true,
                    _ => false,
                }
            },
            Err(error) => {
                &&& error == ItemRepositoryError::Internal
                &&& {
                    ||| kind == ChangeKind::Tombstone && item.deleted_at is None
                    ||| item.revision > i64::MAX
                    ||| base_revision is Some && base_revision->0 > i64::MAX
                }
            },
        },
{
    let tombstone: Option<ItemTombstone> = match kind {
        ChangeKind::Upsert => None,
        ChangeKind::Tombstone => match item.deleted_at {
            Some(deleted_at) => Some(
                ItemTombstone {
                    id: item.id,
                    revision: item.revision,
                    deleted_at,
                    parent_id: item.parent_id,
                },
            ),
            None => {
                return Err(ItemRepositoryError::Internal);
            },
        },
    };
    let revision: i64 = revision_to_i64(item.revision)?;
    let base: Option<i64> = match base_revision {
        Some(base) => Some(revision_to_i64(base)?),
        None => None,
    };
    let event: &'static str = operation_event_name(operation);
    Ok(
        MutationRecord {
            tombstone,
            change_name: change_kind_name(kind),
            revision,
            event,
            deduplication_key: event_deduplication_key(event, item.id, item.revision),
            base_revision: base,
        },
    )
}

/// Why a row of predecessors was refused by the database.
pub fn map_dependency_write_error(constraint: Option<&str>) -> (result: ItemRepositoryError)
    ensures
        result == (if constraint is Some && constraint->0@ == "item_dependencies_acyclic"@ {
            ItemRepositoryError::DependencyCycle
        } else {
            ItemRepositoryError::Internal
        }),
{
    match constraint {
        Some(name) => if same_text(name, "item_dependencies_acyclic") {
            ItemRepositoryError::DependencyCycle
        } else {
            ItemRepositoryError::Internal
        },
        None => ItemRepositoryError::Internal,
    }
}

/// The item that is being executed, from the active session and what is stored of it: a
/// session that is not stored, or is neither active nor paused, is an error.
pub fn active_execution(
    active_session_id: Option<Uuid>,
    session: Option<(Uuid, String)>,
) -> (result: Result<Option<ActiveExecution>, ItemRepositoryError>)
    ensures
        match active_session_id {
            None => result == Ok::<Option<ActiveExecution>, ItemRepositoryError>(None),
            Some(session_id) => match session {
                Some((item_id, state)) if state@ == "active"@ || state@ == "paused"@ => result
                    == Ok::<Option<ActiveExecution>, ItemRepositoryError>(
                    Some(ActiveExecution { session_id, item_id }),
                ),
                _ => result == Err::<Option<ActiveExecution>, ItemRepositoryError>(
                    ItemRepositoryError::Internal,
                ),
            },
        },
{
    match active_session_id {
        None => Ok(None),
        Some(session_id) => match session {
            Some((item_id, state)) => if same_text(state.as_str(), "active") || same_text(
                state.as_str(),
                "paused",
            ) {
                Ok(Some(ActiveExecution { session_id, item_id }))
            } else {
                Err(ItemRepositoryError::Internal)
            },
            None => Err(ItemRepositoryError::Internal),
        },
    }
}

/// What is stored of a request that used the same key.
#[derive(Debug)]
pub struct ReservationRow {
    pub request_fingerprint: Vec<u8>,
    pub state: String,
    /// The item that the request was answered, if there is one and it can be read.
    pub response: Option<Item>,
}

/// Whether a request goes on, or is answered from an earlier one.
#[derive(Debug)]
pub enum Reservation {
    Acquired,
    Replay(Box<Item>),
}

/// Whether a request goes on. `existing` is what is stored under its key, if its key was
/// used before.
pub fn reserve_idempotency(fingerprint: &[u8; 32], existing: Option<ReservationRow>) -> (result:
    Result<Reservation, ItemRepositoryError>)
    ensures
        match existing {
            None => result == Ok::<Reservation, ItemRepositoryError>(Reservation::Acquired),
            Some(row) => if row.request_fingerprint@ != fingerprint@ {
                result == Err::<Reservation, ItemRepositoryError>(
                    ItemRepositoryError::IdempotencyConflict,
                )
            } else if row.state@ != "completed"@ {
                result == Err::<Reservation, ItemRepositoryError>(
                    ItemRepositoryError::IdempotencyInProgress,
                )
            } else {
                match row.response {
                    Some(item) => result == Ok::<Reservation, ItemRepositoryError>(
                        Reservation::Replay(Box::new(item)),
                    ),
                    None => result == Err::<Reservation, ItemRepositoryError>(
                        ItemRepositoryError::Internal,
                    ),
                }
            },
        },
{
    match existing {
        None => Ok(Reservation::Acquired),
        Some(row) => {
            if !same_bytes_and_hash(&row.request_fingerprint, fingerprint) {
                return Err(ItemRepositoryError::IdempotencyConflict);
            }
            if !same_text(row.state.as_str(), "completed") {
                return Err(ItemRepositoryError::IdempotencyInProgress);
            }
            match row.response {
                Some(item) => Ok(Reservation::Replay(Box::new(item))),
                None => Err(ItemRepositoryError::Internal),
            }
        },
    }
}

} // verus!
