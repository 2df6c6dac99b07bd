//! Canonical items: the values that a workspace plans with.
use vstd::prelude::*;

use crate::json::Json;
use crate::text::{same_optional_text, same_text};
use crate::time::{CalendarDate, Instant, Uuid};

verus! {

/// What sort of thing an item is.
#[derive(Clone, Copy, Debug, PartialEq, Eq, Structural)]
pub enum ItemKind {
    Event,
    Task,
    Habit,
    Routine,
    Goal,
    Project,
    Break,
}

/// Where an item stands in its life.
#[derive(Clone, Copy, Debug, PartialEq, Eq, Structural)]
pub enum ItemStatus {
    Inbox,
    Planned,
    Scheduled,
    InProgress,
    Paused,
    Completed,
    Skipped,
    Cancelled,
    Blocked,
}

/// How much is known of an item's duration.
#[derive(Clone, Copy, Debug, PartialEq, Eq, Structural)]
pub enum DurationKind {
    Unknown,
    Exact,
    Range,
}

/// Where an item's duration comes from.
#[derive(Clone, Copy, Debug, PartialEq, Eq, Structural)]
pub enum DurationSource {
    User,
    Assistant,
    Learned,
    Imported,
}

/// Whether a deadline is absent, a day or an instant.
#[derive(Clone, Copy, Debug, PartialEq, Eq, Structural)]
pub enum DeadlineKind {
    Absent,
    Date,
    DateTime,
}

/// Whether a deadline must be met, or is only preferred.
#[derive(Clone, Copy, Debug, PartialEq, Eq, Structural)]
pub enum DeadlineStrength {
    Hard,
    Soft,
}

/// Why an item is blocked.
#[derive(Clone, Copy, Debug, PartialEq, Eq, Structural)]
pub enum BlockedReasonKind {
    Dependency,
    Manual,
    External,
}

/// Which ends of two items a dependency ties together.
#[derive(Clone, Copy, Debug, PartialEq, Eq, Structural)]
pub enum DependencyRelation {
    FinishToStart,
    StartToStart,
    FinishToFinish,
    StartToFinish,
}

/// Whether a dependency must hold, or how much it is preferred.
#[derive(Clone, Copy, Debug, PartialEq, Eq, Structural)]
pub enum ConstraintStrength {
    Hard,
    Soft { weight: u32 },
}

/// A predecessor of an item, and how it constrains the item's schedule.
#[derive(Clone, Copy, Debug, PartialEq, Eq, Structural)]
pub struct Dependency {
    pub item_id: Uuid,
    pub relation: DependencyRelation,
    /// Minutes that must pass between the two ends.
    pub minimum_lag: u32,
    pub strength: ConstraintStrength,
}

/// Whether the work on an item may be split into chunks.
#[derive(Clone, Copy, Debug, PartialEq, Eq, Structural)]
pub enum SplitPolicy {
    Indivisible,
    Splittable { minimum_chunk_seconds: u32, maximum_chunk_seconds: u32 },
}

/// An item of a workspace.
#[derive(Debug)]
pub struct Item {
    pub id: Uuid,
    pub is_sensitive: bool,
    pub kind: ItemKind,
    pub status: ItemStatus,
    pub title: String,
    pub notes: Option<String>,
    pub timezone_name: String,
    pub duration_kind: DurationKind,
    pub duration_seconds: Option<u32>,
    pub duration_min_seconds: Option<u32>,
    pub duration_max_seconds: Option<u32>,
    pub duration_source: Option<DurationSource>,
    pub deadline_kind: DeadlineKind,
    pub deadline_date: Option<CalendarDate>,
    pub deadline_at: Option<Instant>,
    pub deadline_strength: Option<DeadlineStrength>,
    pub deadline_soft_weight: Option<u32>,
    pub earliest_start_at: Option<Instant>,
    pub recurrence: Option<Json>,
    /// Scheduling constraints other than the dependencies.
    pub constraints: Json,
    /// The predecessors of the item.
    pub dependencies: Vec<Dependency>,
    pub has_own_effort: bool,
    pub split_policy: SplitPolicy,
    pub importance: u8,
    pub urgency: u8,
    pub parent_id: Option<Uuid>,
    pub sibling_order: u32,
    pub blocked_reason_kind: Option<BlockedReasonKind>,
    pub blocked_by_item_id: Option<Uuid>,
    pub blocked_reason: Option<String>,
    /// Whether work on the item itself can start.
    pub is_executable: bool,
    pub revision: u64,
    pub created_at: Instant,
    pub updated_at: Instant,
    pub completed_at: Option<Instant>,
    /// When the item was moved to the trash.
    pub deleted_at: Option<Instant>,
}

/// Whether two items agree in every field.
pub open spec fn item_same(a: Item, b: Item) -> bool {
    &&& a.id == b.id
    &&& a.is_sensitive == b.is_sensitive
    &&& a.kind == b.kind
    &&& a.status == b.status
    &&& a.title@ == b.title@
    &&& crate::text::optional_text(a.notes) == crate::text::optional_text(b.notes)
    &&& a.timezone_name@ == b.timezone_name@
    &&& a.duration_kind == b.duration_kind
    &&& a.duration_seconds == b.duration_seconds
    &&& a.duration_min_seconds == b.duration_min_seconds
    &&& a.duration_max_seconds == b.duration_max_seconds
    &&& a.duration_source == b.duration_source
    &&& a.deadline_kind == b.deadline_kind
    &&& a.deadline_date == b.deadline_date
    &&& a.deadline_at == b.deadline_at
    &&& a.deadline_strength == b.deadline_strength
    &&& a.deadline_soft_weight == b.deadline_soft_weight
    &&& a.earliest_start_at == b.earliest_start_at
    &&& crate::json::optional_json_same(a.recurrence, b.recurrence)
    &&& crate::json::json_same(a.constraints, b.constraints)
    &&& a.dependencies@ == b.dependencies@
    &&& a.has_own_effort == b.has_own_effort
    &&& a.split_policy == b.split_policy
    &&& a.importance == b.importance
    &&& a.urgency == b.urgency
    &&& a.parent_id == b.parent_id
    &&& a.sibling_order == b.sibling_order
    &&& a.blocked_reason_kind == b.blocked_reason_kind
    &&& a.blocked_by_item_id == b.blocked_by_item_id
    &&& crate::text::optional_text(a.blocked_reason) == crate::text::optional_text(b.blocked_reason)
    &&& a.is_executable == b.is_executable
    &&& a.revision == b.revision
    &&& a.created_at == b.created_at
    &&& a.updated_at == b.updated_at
    &&& a.completed_at == b.completed_at
    &&& a.deleted_at == b.deleted_at
}

/// Whether two dependency lists are the same list.
pub fn same_dependencies(a: &Vec<Dependency>, b: &Vec<Dependency>) -> (result: bool)
    ensures
        result == (a@ == b@),
{
    if a.len() != b.len() {
        return false;
    }
    let mut i: usize = 0;
    while i < a.len()
        invariant
            i <= a.len(),
            a@.len() == b@.len(),
            forall|k: int| 0 <= k < i ==> a@[k] == b@[k],
        decreases a.len() - i,
    {
        if a[i] != b[i] {
            return false;
        }
        i = i + 1;
    }
    assert(a@ =~= b@);
    true
}

/// A copy of a dependency list.
pub fn copy_dependencies(source: &Vec<Dependency>) -> (result: Vec<Dependency>)
    ensures
        result@ == source@,
{
    let mut copy: Vec<Dependency> = Vec::new();
    let mut i: usize = 0;
    while i < source.len()
        invariant
            i <= source.len(),
            copy@ == source@.take(i as int),
        decreases source.len() - i,
    {
        copy.push(source[i]);
        i = i + 1;
        assert(copy@ =~= source@.take(i as int));
    }
    assert(source@.take(i as int) =~= source@);
    copy
}

/// Whether two optional documents are the same value.
pub fn same_optional_json(a: &Option<Json>, b: &Option<Json>) -> (result: bool)
    ensures
        result == crate::json::optional_json_same(*a, *b),
{
    match (a, b) {
        (None, None) => true,
        (Some(x), Some(y)) => x.same(y),
        _ => false,
    }
}

/// A copy of an optional document.
pub fn copy_optional_json(source: &Option<Json>) -> (result: Option<Json>)
    ensures
        crate::json::optional_json_same(*source, result),
{
    match source {
        None => None,
        Some(x) => Some(x.clone()),
    }
}

impl Item {
    /// Whether `self` and `other` agree in every field.
    pub fn same(&self, other: &Item) -> (result: bool)
        ensures
            result == item_same(*self, *other),
    {
        self.id == other.id && self.is_sensitive == other.is_sensitive && self.kind == other.kind && self.status == other.status && same_text(self.title.as_str(), other.title.as_str()) && same_optional_text(&self.notes, &other.notes) && same_text(self.timezone_name.as_str(), other.timezone_name.as_str()) && self.duration_kind == other.duration_kind && self.duration_seconds == other.duration_seconds && self.duration_min_seconds == other.duration_min_seconds && self.duration_max_seconds == other.duration_max_seconds && self.duration_source == other.duration_source && self.deadline_kind == other.deadline_kind && self.deadline_date == other.deadline_date && self.deadline_at == other.deadline_at && self.deadline_strength == other.deadline_strength && self.deadline_soft_weight == other.deadline_soft_weight && self.earliest_start_at == other.earliest_start_at && same_optional_json(&self.recurrence, &other.recurrence) && self.constraints.same(&other.constraints) && same_dependencies(&self.dependencies, &other.dependencies) && self.has_own_effort == other.has_own_effort && self.split_policy == other.split_policy && self.importance == other.importance && self.urgency == other.urgency && self.parent_id == other.parent_id && self.sibling_order == other.sibling_order && self.blocked_reason_kind == other.blocked_reason_kind && self.blocked_by_item_id == other.blocked_by_item_id && same_optional_text(&self.blocked_reason, &other.blocked_reason) && self.is_executable == other.is_executable && self.revision == other.revision && self.created_at == other.created_at && self.updated_at == other.updated_at && self.completed_at == other.completed_at && self.deleted_at == other.deleted_at
    }
}

impl Clone for Item {
    fn clone(&self) -> (result: Self)
        ensures
            item_same(*self, result),
    {
        Item {
            id: self.id,
            is_sensitive: self.is_sensitive,
            kind: self.kind,
            status: self.status,
            title: self.title.clone(),
            notes: self.notes.clone(),
            timezone_name: self.timezone_name.clone(),
            duration_kind: self.duration_kind,
            duration_seconds: self.duration_seconds,
            duration_min_seconds: self.duration_min_seconds,
            duration_max_seconds: self.duration_max_seconds,
            duration_source: self.duration_source,
            deadline_kind: self.deadline_kind,
            deadline_date: self.deadline_date,
            deadline_at: self.deadline_at,
            deadline_strength: self.deadline_strength,
            deadline_soft_weight: self.deadline_soft_weight,
            earliest_start_at: self.earliest_start_at,
            recurrence: copy_optional_json(&self.recurrence),
            constraints: self.constraints.clone(),
            dependencies: copy_dependencies(&self.dependencies),
            has_own_effort: self.has_own_effort,
            split_policy: self.split_policy,
            importance: self.importance,
            urgency: self.urgency,
            parent_id: self.parent_id,
            sibling_order: self.sibling_order,
            blocked_reason_kind: self.blocked_reason_kind,
            blocked_by_item_id: self.blocked_by_item_id,
            blocked_reason: self.blocked_reason.clone(),
            is_executable: self.is_executable,
            revision: self.revision,
            created_at: self.created_at,
            updated_at: self.updated_at,
            completed_at: self.completed_at,
            deleted_at: self.deleted_at,
        }
    }
}

/// The content of an item that is to be created.
#[derive(Debug)]
pub struct NewItem {
    pub id: Uuid,
    pub is_sensitive: bool,
    pub kind: ItemKind,
    pub status: ItemStatus,
    pub title: String,
    pub notes: Option<String>,
    pub timezone_name: String,
    pub duration_kind: Option<DurationKind>,
    pub duration_seconds: Option<u32>,
    pub duration_min_seconds: Option<u32>,
    pub duration_max_seconds: Option<u32>,
    pub duration_source: Option<DurationSource>,
    pub deadline_kind: Option<DeadlineKind>,
    pub deadline_date: Option<CalendarDate>,
    pub deadline_at: Option<Instant>,
    pub deadline_strength: Option<DeadlineStrength>,
    pub deadline_soft_weight: Option<u32>,
    pub earliest_start_at: Option<Instant>,
    pub recurrence: Option<Json>,
    pub constraints: Json,
    pub dependencies: Vec<Dependency>,
    pub has_own_effort: Option<bool>,
    pub split_policy: SplitPolicy,
    pub importance: u8,
    pub urgency: u8,
    pub parent_id: Option<Uuid>,
    pub sibling_order: u32,
    pub blocked_reason_kind: Option<BlockedReasonKind>,
    pub blocked_by_item_id: Option<Uuid>,
    pub blocked_reason: Option<String>,
}

/// The content that is to replace that of an item.
#[derive(Debug)]
pub struct ReplaceItem {
    pub is_sensitive: bool,
    pub kind: ItemKind,
    pub status: ItemStatus,
    pub title: String,
    pub notes: Option<String>,
    pub timezone_name: String,
    pub duration_kind: Option<DurationKind>,
    pub duration_seconds: Option<u32>,
    pub duration_min_seconds: Option<u32>,
    pub duration_max_seconds: Option<u32>,
    pub duration_source: Option<DurationSource>,
    pub deadline_kind: Option<DeadlineKind>,
    pub deadline_date: Option<CalendarDate>,
    pub deadline_at: Option<Instant>,
    pub deadline_strength: Option<DeadlineStrength>,
    pub deadline_soft_weight: Option<u32>,
    pub earliest_start_at: Option<Instant>,
    pub recurrence: Option<Json>,
    pub constraints: Json,
    pub dependencies: Vec<Dependency>,
    pub has_own_effort: Option<bool>,
    pub split_policy: SplitPolicy,
    pub importance: u8,
    pub urgency: u8,
    pub parent_id: Option<Uuid>,
    pub sibling_order: u32,
    pub blocked_reason_kind: Option<BlockedReasonKind>,
    pub blocked_by_item_id: Option<Uuid>,
    pub blocked_reason: Option<String>,
}

/// Why an operation on items was refused.
#[derive(Clone, Copy, Debug, PartialEq, Eq, Structural)]
pub enum ItemRepositoryError {
    Duplicate(Uuid),
    NotFound(Uuid),
    RevisionConflict { expected: u64, actual: u64 },
    ParentNotFound(Uuid),
    SelfParent,
    HierarchyCycle,
    InvalidParentState,
    NonLeafExecutable,
    HasChildren,
    DeletedParent,
    BlockedByItemNotFound(Uuid),
    DependencyNotFound(Uuid),
    DependencyCycle,
    CrossRecurringSubtreeDependency { successor_id: Uuid, predecessor_id: Uuid },
    ActiveExecutionConflict { item_id: Uuid, session_id: Uuid },
    InvalidItem,
    InvalidCursor,
    DeltaGroupTooLarge,
    IdempotencyConflict,
    IdempotencyInProgress,
    BootstrapExpired,
    BootstrapCapacity,
    BootstrapTooLarge,
    BootstrapCursorInvalid,
    Internal,
}

/// The classification of statuses and kinds that the hierarchy and execution
/// rules go by.
#[derive(Debug)]
pub struct ItemPolicy {
    /// The statuses of an item that is being worked on.
    pub executing: Vec<ItemStatus>,
    /// The statuses in which work on an item cannot start.
    pub preventing: Vec<ItemStatus>,
    /// The kinds whose items can be worked on, with or without effort of their own.
    pub executable: Vec<(ItemKind, bool)>,
}

impl ItemPolicy {
    /// Whether an item in this status is being worked on.
    pub fn is_executing_state(&self, status: ItemStatus) -> (result: bool)
        ensures
            result == self.executing@.contains(status),
    {
        holds_status(&self.executing, status)
    }

    /// Whether work on an item in this status cannot start.
    pub fn prevents_execution(&self, status: ItemStatus) -> (result: bool)
        ensures
            result == self.preventing@.contains(status),
    {
        holds_status(&self.preventing, status)
    }

    /// Whether an item of this kind has work of its own.
    pub fn has_executable_component(&self, kind: ItemKind, has_own_effort: bool) -> (result: bool)
        ensures
            result == self.executable@.contains((kind, has_own_effort)),
    {
        let mut i: usize = 0;
        while i < self.executable.len()
            invariant
                i <= self.executable.len(),
                forall|k: int| 0 <= k < i ==> self.executable@[k] != (kind, has_own_effort),
            decreases self.executable.len() - i,
        {
            if self.executable[i].0 == kind && self.executable[i].1 == has_own_effort {
                assert(self.executable@[i as int] == (kind, has_own_effort));
                return true;
            }
            i = i + 1;
        }
        false
    }

    /// Whether work on an item can start, given whether it has live children.
    pub open spec fn execution_allowed(
        self,
        kind: ItemKind,
        has_own_effort: bool,
        deleted: bool,
        has_children: bool,
    ) -> bool {
        !deleted && !has_children && self.executable@.contains((kind, has_own_effort))
    }

    /// Whether work on `item` can start, given whether it has live children.
    pub fn execution_is_allowed(&self, item: &Item, has_children: bool) -> (result: bool)
        ensures
            result == self.execution_allowed(
                item.kind,
                item.has_own_effort,
                item.deleted_at is Some,
                has_children,
            ),
    {
        item.deleted_at.is_none() && !has_children && self.has_executable_component(
            item.kind,
            item.has_own_effort,
        )
    }
}

/// Whether `status` is one of `statuses`.
pub fn holds_status(statuses: &Vec<ItemStatus>, status: ItemStatus) -> (result: bool)
    ensures
        result == statuses@.contains(status),
{
    let mut i: usize = 0;
    while i < statuses.len()
        invariant
            i <= statuses.len(),
            forall|k: int| 0 <= k < i ==> statuses@[k] != status,
        decreases statuses.len() - i,
    {
        if statuses[i] == status {
            assert(statuses@[i as int] == status);
            return true;
        }
        i = i + 1;
    }
    false
}

} // verus!
