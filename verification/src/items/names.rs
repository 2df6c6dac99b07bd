//! The names under which the database stores the enumerations of items.
use vstd::prelude::*;

use crate::items::model::{
    BlockedReasonKind, DeadlineKind, DeadlineStrength, DependencyRelation, DurationKind,
    DurationSource, ItemKind, ItemRepositoryError, ItemStatus, SplitPolicy,
};
use crate::text::same_text;

verus! {

/// The stored name of an item's kind.
pub open spec fn kind_name_text(value: ItemKind) -> Seq<char> {
    match value {
        ItemKind::Event => "event"@,
        ItemKind::Task => "task"@,
        ItemKind::Habit => "habit"@,
        ItemKind::Routine => "routine"@,
        ItemKind::Goal => "goal"@,
        ItemKind::Project => "project"@,
        ItemKind::Break => "break"@,
    }
}

/// The stored name of an item's kind.
pub fn kind_name(value: ItemKind) -> (result: &'static str)
    ensures
        result@ == kind_name_text(value),
{
    match value {
        ItemKind::Event => "event",
        ItemKind::Task => "task",
        ItemKind::Habit => "habit",
        ItemKind::Routine => "routine",
        ItemKind::Goal => "goal",
        ItemKind::Project => "project",
        ItemKind::Break => "break",
    }
}

/// Reads an item's kind from its stored name.
pub fn parse_kind(value: &str) -> (result: Result<ItemKind, ItemRepositoryError>)
    ensures
        match result {
            Ok(read) => value@ == kind_name_text(read),
            Err(error) => error == ItemRepositoryError::Internal && forall|x: ItemKind|
                value@ != #[trigger] kind_name_text(x),
        },
{
    if same_text(value, "event") {
        Ok(ItemKind::Event)
    } else if same_text(value, "task") {
        Ok(ItemKind::Task)
    } else if same_text(value, "habit") {
        Ok(ItemKind::Habit)
    } else if same_text(value, "routine") {
        Ok(ItemKind::Routine)
    } else if same_text(value, "goal") {
        Ok(ItemKind::Goal)
    } else if same_text(value, "project") {
        Ok(ItemKind::Project)
    } else if same_text(value, "break") {
        Ok(ItemKind::Break)
    } else {
        Err(ItemRepositoryError::Internal)
    }
}

/// No two have the same stored name, so reading a stored name gives back the
/// value it was written for.
pub proof fn kind_name_text_is_injective(a: ItemKind, b: ItemKind)
    ensures
        kind_name_text(a) == kind_name_text(b) ==> a == b,
{
    reveal_strlit("event");
    reveal_strlit("task");
    reveal_strlit("habit");
    reveal_strlit("routine");
    reveal_strlit("goal");
    reveal_strlit("project");
    reveal_strlit("break");
    assert("event"@.len() == 5);
    assert("task"@.len() == 4);
    assert("habit"@.len() == 5);
    assert("routine"@.len() == 7);
    assert("goal"@.len() == 4);
    assert("project"@.len() == 7);
    assert("break"@.len() == 5);
    assert("event"@[0] != "habit"@[0]);
    assert("event"@[0] != "break"@[0]);
    assert("task"@[0] != "goal"@[0]);
    assert("habit"@[0] != "break"@[0]);
    assert("routine"@[0] != "project"@[0]);
}

/// The stored name of an item's status.
pub open spec fn status_name_text(value: ItemStatus) -> Seq<char> {
    match value {
        ItemStatus::Inbox => "inbox"@,
        ItemStatus::Planned => "planned"@,
        ItemStatus::Scheduled => "scheduled"@,
        ItemStatus::InProgress => "in_progress"@,
        ItemStatus::Paused => "paused"@,
        ItemStatus::Completed => "completed"@,
        ItemStatus::Skipped => "skipped"@,
        ItemStatus::Cancelled => "cancelled"@,
        ItemStatus::Blocked => "blocked"@,
    }
}

/// The stored name of an item's status.
pub fn status_name(value: ItemStatus) -> (result: &'static str)
    ensures
        result@ == status_name_text(value),
{
    match value {
        ItemStatus::Inbox => "inbox",
        ItemStatus::Planned => "planned",
        ItemStatus::Scheduled => "scheduled",
        ItemStatus::InProgress => "in_progress",
        ItemStatus::Paused => "paused",
        ItemStatus::Completed => "completed",
        ItemStatus::Skipped => "skipped",
        ItemStatus::Cancelled => "cancelled",
        ItemStatus::Blocked => "blocked",
    }
}

/// Reads an item's status from its stored name.
pub fn parse_status(value: &str) -> (result: Result<ItemStatus, ItemRepositoryError>)
    ensures
        match result {
            Ok(read) => value@ == status_name_text(read),
            Err(error) => error == ItemRepositoryError::Internal && forall|x: ItemStatus|
                value@ != #[trigger] status_name_text(x),
        },
{
    if same_text(value, "inbox") {
        Ok(ItemStatus::Inbox)
    } else if same_text(value, "planned") {
        Ok(ItemStatus::Planned)
    } else if same_text(value, "scheduled") {
        Ok(ItemStatus::Scheduled)
    } else if same_text(value, "in_progress") {
        Ok(ItemStatus::InProgress)
    } else if same_text(value, "paused") {
        Ok(ItemStatus::Paused)
    } else if same_text(value, "completed") {
        Ok(ItemStatus::Completed)
    } else if same_text(value, "skipped") {
        Ok(ItemStatus::Skipped)
    } else if same_text(value, "cancelled") {
        Ok(ItemStatus::Cancelled)
    } else if same_text(value, "blocked") {
        Ok(ItemStatus::Blocked)
    } else {
        Err(ItemRepositoryError::Internal)
    }
}

/// No two have the same stored name, so reading a stored name gives back the
/// value it was written for.
pub proof fn status_name_text_is_injective(a: ItemStatus, b: ItemStatus)
    ensures
        status_name_text(a) == status_name_text(b) ==> a == b,
{
    reveal_strlit("inbox");
    reveal_strlit("planned");
    reveal_strlit("scheduled");
    reveal_strlit("in_progress");
    reveal_strlit("paused");
    reveal_strlit("completed");
    reveal_strlit("skipped");
    reveal_strlit("cancelled");
    reveal_strlit("blocked");
    assert("inbox"@.len() == 5);
    assert("planned"@.len() == 7);
    assert("scheduled"@.len() == 9);
    assert("in_progress"@.len() == 11);
    assert("paused"@.len() == 6);
    assert("completed"@.len() == 9);
    assert("skipped"@.len() == 7);
    assert("cancelled"@.len() == 9);
    assert("blocked"@.len() == 7);
    assert("planned"@[0] != "skipped"@[0]);
    assert("planned"@[0] != "blocked"@[0]);
    assert("scheduled"@[0] != "completed"@[0]);
    assert("scheduled"@[0] != "cancelled"@[0]);
    assert("completed"@[1] != "cancelled"@[1]);
    assert("skipped"@[0] != "blocked"@[0]);
}

/// The stored name of a kind of duration.
pub open spec fn duration_kind_name_text(value: DurationKind) -> Seq<char> {
    match value {
        DurationKind::Unknown => "unknown"@,
        DurationKind::Exact => "exact"@,
        DurationKind::Range => "range"@,
    }
}

/// The stored name of a kind of duration.
pub fn duration_kind_name(value: DurationKind) -> (result: &'static str)
    ensures
        result@ == duration_kind_name_text(value),
{
    match value {
        DurationKind::Unknown => "unknown",
        DurationKind::Exact => "exact",
        DurationKind::Range => "range",
    }
}

/// Reads a kind of duration from its stored name.
pub fn parse_duration_kind(value: &str) -> (result: Result<DurationKind, ItemRepositoryError>)
    ensures
        match result {
            Ok(read) => value@ == duration_kind_name_text(read),
            Err(error) => error == ItemRepositoryError::Internal && forall|x: DurationKind|
                value@ != #[trigger] duration_kind_name_text(x),
        },
{
    if same_text(value, "unknown") {
        Ok(DurationKind::Unknown)
    } else if same_text(value, "exact") {
        Ok(DurationKind::Exact)
    } else if same_text(value, "range") {
        Ok(DurationKind::Range)
    } else {
        Err(ItemRepositoryError::Internal)
    }
}

/// No two have the same stored name, so reading a stored name gives back the
/// value it was written for.
pub proof fn duration_kind_name_text_is_injective(a: DurationKind, b: DurationKind)
    ensures
        duration_kind_name_text(a) == duration_kind_name_text(b) ==> a == b,
{
    reveal_strlit("unknown");
    reveal_strlit("exact");
    reveal_strlit("range");
    assert("unknown"@.len() == 7);
    assert("exact"@.len() == 5);
    assert("range"@.len() == 5);
    assert("exact"@[0] != "range"@[0]);
}

/// The stored name of the source of a duration.
pub open spec fn duration_source_name_text(value: DurationSource) -> Seq<char> {
    match value {
        DurationSource::User => "user"@,
        DurationSource::Assistant => "assistant"@,
        DurationSource::Learned => "learned"@,
        DurationSource::Imported => "imported"@,
    }
}

/// The stored name of the source of a duration.
pub fn duration_source_name(value: DurationSource) -> (result: &'static str)
    ensures
        result@ == duration_source_name_text(value),
{
    match value {
        DurationSource::User => "user",
        DurationSource::Assistant => "assistant",
        DurationSource::Learned => "learned",
        DurationSource::Imported => "imported",
    }
}

/// Reads the source of a duration from its stored name.
pub fn parse_duration_source(value: &str) -> (result: Result<DurationSource, ItemRepositoryError>)
    ensures
        match result {
            Ok(read) => value@ == duration_source_name_text(read),
            Err(error) => error == ItemRepositoryError::Internal && forall|x: DurationSource|
                value@ != #[trigger] duration_source_name_text(x),
        },
{
    if same_text(value, "user") {
        Ok(DurationSource::User)
    } else if same_text(value, "assistant") {
        Ok(DurationSource::Assistant)
    } else if same_text(value, "learned") {
        Ok(DurationSource::Learned)
    } else if same_text(value, "imported") {
        Ok(DurationSource::Imported)
    } else {
        Err(ItemRepositoryError::Internal)
    }
}

/// No two have the same stored name, so reading a stored name gives back the
/// value it was written for.
pub proof fn duration_source_name_text_is_injective(a: DurationSource, b: DurationSource)
    ensures
        duration_source_name_text(a) == duration_source_name_text(b) ==> a == b,
{
    reveal_strlit("user");
    reveal_strlit("assistant");
    reveal_strlit("learned");
    reveal_strlit("imported");
    assert("user"@.len() == 4);
    assert("assistant"@.len() == 9);
    assert("learned"@.len() == 7);
    assert("imported"@.len() == 8);
}

/// The stored name of a kind of deadline.
pub open spec fn deadline_kind_name_text(value: DeadlineKind) -> Seq<char> {
    match value {
        DeadlineKind::Absent => "none"@,
        DeadlineKind::Date => "date"@,
        DeadlineKind::DateTime => "date_time"@,
    }
}

/// The stored name of a kind of deadline.
pub fn deadline_kind_name(value: DeadlineKind) -> (result: &'static str)
    ensures
        result@ == deadline_kind_name_text(value),
{
    match value {
        DeadlineKind::Absent => "none",
        DeadlineKind::Date => "date",
        DeadlineKind::DateTime => "date_time",
    }
}

/// Reads a kind of deadline from its stored name.
pub fn parse_deadline_kind(value: &str) -> (result: Result<DeadlineKind, ItemRepositoryError>)
    ensures
        match result {
            Ok(read) => value@ == deadline_kind_name_text(read),
            Err(error) => error == ItemRepositoryError::Internal && forall|x: DeadlineKind|
                value@ != #[trigger] deadline_kind_name_text(x),
        },
{
    if same_text(value, "none") {
        Ok(DeadlineKind::Absent)
    } else if same_text(value, "date") {
        Ok(DeadlineKind::Date)
    } else if same_text(value, "date_time") {
        Ok(DeadlineKind::DateTime)
    } else {
        Err(ItemRepositoryError::Internal)
    }
}

/// No two have the same stored name, so reading a stored name gives back the
/// value it was written for.
pub proof fn deadline_kind_name_text_is_injective(a: DeadlineKind, b: DeadlineKind)
    ensures
        deadline_kind_name_text(a) == deadline_kind_name_text(b) ==> a == b,
{
    reveal_strlit("none");
    reveal_strlit("date");
    reveal_strlit("date_time");
    assert("none"@.len() == 4);
    assert("date"@.len() == 4);
    assert("date_time"@.len() == 9);
    assert("none"@[0] != "date"@[0]);
}

/// The stored name of the strength of a deadline.
pub open spec fn deadline_strength_name_text(value: DeadlineStrength) -> Seq<char> {
    match value {
        DeadlineStrength::Hard => "hard"@,
        DeadlineStrength::Soft => "soft"@,
    }
}

/// The stored name of the strength of a deadline.
pub fn deadline_strength_name(value: DeadlineStrength) -> (result: &'static str)
    ensures
        result@ == deadline_strength_name_text(value),
{
    match value {
        DeadlineStrength::Hard => "hard",
        DeadlineStrength::Soft => "soft",
    }
}

/// Reads the strength of a deadline from its stored name.
pub fn parse_deadline_strength(value: &str) -> (result: Result<DeadlineStrength, ItemRepositoryError>)
    ensures
        match result {
            Ok(read) => value@ == deadline_strength_name_text(read),
            Err(error) => error == ItemRepositoryError::Internal && forall|x: DeadlineStrength|
                value@ != #[trigger] deadline_strength_name_text(x),
        },
{
    if same_text(value, "hard") {
        Ok(DeadlineStrength::Hard)
    } else if same_text(value, "soft") {
        Ok(DeadlineStrength::Soft)
    } else {
        Err(ItemRepositoryError::Internal)
    }
}

/// No two have the same stored name, so reading a stored name gives back the
/// value it was written for.
pub proof fn deadline_strength_name_text_is_injective(a: DeadlineStrength, b: DeadlineStrength)
    ensures
        deadline_strength_name_text(a) == deadline_strength_name_text(b) ==> a == b,
{
    reveal_strlit("hard");
    reveal_strlit("soft");
    assert("hard"@.len() == 4);
    assert("soft"@.len() == 4);
    assert("hard"@[0] != "soft"@[0]);
}

/// The stored name of the kind of reason for a block.
pub open spec fn blocked_reason_kind_name_text(value: BlockedReasonKind) -> Seq<char> {
    match value {
        BlockedReasonKind::Dependency => "dependency"@,
        BlockedReasonKind::Manual => "manual"@,
        BlockedReasonKind::External => "external"@,
    }
}

/// The stored name of the kind of reason for a block.
pub fn blocked_reason_kind_name(value: BlockedReasonKind) -> (result: &'static str)
    ensures
        result@ == blocked_reason_kind_name_text(value),
{
    match value {
        BlockedReasonKind::Dependency => "dependency",
        BlockedReasonKind::Manual => "manual",
        BlockedReasonKind::External => "external",
    }
}

/// Reads the kind of reason for a block from its stored name.
pub fn parse_blocked_reason_kind(value: &str) -> (result: Result<BlockedReasonKind, ItemRepositoryError>)
    ensures
        match result {
            Ok(read) => value@ == blocked_reason_kind_name_text(read),
            Err(error) => error == ItemRepositoryError::Internal && forall|x: BlockedReasonKind|
                value@ != #[trigger] blocked_reason_kind_name_text(x),
        },
{
    if same_text(value, "dependency") {
        Ok(BlockedReasonKind::Dependency)
    } else if same_text(value, "manual") {
        Ok(BlockedReasonKind::Manual)
    } else if same_text(value, "external") {
        Ok(BlockedReasonKind::External)
    } else {
        Err(ItemRepositoryError::Internal)
    }
}

/// No two have the same stored name, so reading a stored name gives back the
/// value it was written for.
pub proof fn blocked_reason_kind_name_text_is_injective(a: BlockedReasonKind, b: BlockedReasonKind)
    ensures
        blocked_reason_kind_name_text(a) == blocked_reason_kind_name_text(b) ==> a == b,
{
    reveal_strlit("dependency");
    reveal_strlit("manual");
    reveal_strlit("external");
    assert("dependency"@.len() == 10);
    assert("manual"@.len() == 6);
    assert("external"@.len() == 8);
}

/// The stored name of a dependency's relation.
pub fn dependency_relation_name(relation: DependencyRelation) -> (result: &'static str)
    ensures
        result@ == (match relation {
            DependencyRelation::FinishToStart => "finish_to_start"@,
            DependencyRelation::StartToStart => "start_to_start"@,
            DependencyRelation::FinishToFinish => "finish_to_finish"@,
            DependencyRelation::StartToFinish => "start_to_finish"@,
        }),
{
    match relation {
        DependencyRelation::FinishToStart => "finish_to_start",
        DependencyRelation::StartToStart => "start_to_start",
        DependencyRelation::FinishToFinish => "finish_to_finish",
        DependencyRelation::StartToFinish => "start_to_finish",
    }
}

/// Whether the chunk sizes of a policy fit the columns that store them.
pub open spec fn split_fits(policy: SplitPolicy) -> bool {
    match policy {
        SplitPolicy::Indivisible => true,
        SplitPolicy::Splittable { minimum_chunk_seconds, maximum_chunk_seconds } => {
            minimum_chunk_seconds <= i32::MAX && maximum_chunk_seconds <= i32::MAX
        },
    }
}

/// The columns that store a split policy: whether splitting is allowed, and the
/// smallest and largest chunk.
pub fn split_columns(policy: &SplitPolicy) -> (result: (bool, Option<i32>, Option<i32>))
    requires
        split_fits(*policy),
    ensures
        match *policy {
            SplitPolicy::Indivisible => result == (false, None::<i32>, None::<i32>),
            SplitPolicy::Splittable { minimum_chunk_seconds, maximum_chunk_seconds } => {
                &&& result.0
                &&& result.1 == Some(minimum_chunk_seconds as i32)
                &&& result.2 == Some(maximum_chunk_seconds as i32)
            },
        },
{
    match policy {
        SplitPolicy::Indivisible => (false, None, None),
        SplitPolicy::Splittable { minimum_chunk_seconds, maximum_chunk_seconds } => (
            true,
            Some(*minimum_chunk_seconds as i32),
            Some(*maximum_chunk_seconds as i32),
        ),
    }
}

/// Reads a split policy from its columns.
pub fn split_policy(
    allowed: bool,
    minimum: Option<i32>,
    maximum: Option<i32>,
) -> (result: Result<SplitPolicy, ItemRepositoryError>)
    ensures
        result == (if !allowed {
            Ok::<SplitPolicy, ItemRepositoryError>(SplitPolicy::Indivisible)
        } else {
            match (minimum, maximum) {
                (Some(low), Some(high)) if low >= 0 && high >= 0 => Ok(
                    SplitPolicy::Splittable {
                        minimum_chunk_seconds: low as u32,
                        maximum_chunk_seconds: high as u32,
                    },
                ),
                _ => Err(ItemRepositoryError::Internal),
            }
        }),
{
    if !allowed {
        return Ok(SplitPolicy::Indivisible);
    }
    match (minimum, maximum) {
        (Some(low), Some(high)) => if low >= 0 && high >= 0 {
            Ok(
                SplitPolicy::Splittable {
                    minimum_chunk_seconds: low as u32,
                    maximum_chunk_seconds: high as u32,
                },
            )
        } else {
            Err(ItemRepositoryError::Internal)
        },
        _ => Err(ItemRepositoryError::Internal),
    }
}

} // verus!
