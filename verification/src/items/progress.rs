//! Progress on items: repeated requests, stored rows and what is recorded of a change.
use vstd::prelude::*;

use crate::json::Json;
use crate::outside::uuid_text;
use crate::time::{Instant, Uuid};

verus! {

/// Why an operation on progress is refused.
#[derive(Clone, Copy, Debug, PartialEq, Eq, Structural)]
pub enum ItemProgressError {
    ItemMissing,
    OperationReused,
    /// The request itself is refused.
    Refused,
    Unavailable,
}

/// Any failure of the storage makes progress unavailable.
pub fn storage<T>(_error: T) -> (result: ItemProgressError)
    ensures
        result == ItemProgressError::Unavailable,
{
    ItemProgressError::Unavailable
}

/// A revision as the database stores it.
pub fn revision(value: u64) -> (result: Result<i64, ItemProgressError>)
    ensures
        match result {
            Ok(stored) => stored == value,
            Err(error) => value > i64::MAX && error == ItemProgressError::Unavailable,
        },
{
    match crate::numbers::signed(value) {
        Some(stored) => Ok(stored),
        None => Err(ItemProgressError::Unavailable),
    }
}

/// The progress on an item.
#[derive(Debug)]
pub struct ItemProgressSnapshot {
    pub schema_version: u16,
    pub item_id: Uuid,
    pub item_revision: u64,
    /// The revision of the progress; zero where none was recorded.
    pub revision: u64,
    pub components: Json,
    pub updated_at: Option<Instant>,
}

impl ItemProgressSnapshot {
    /// The progress on an item on which none was recorded. `components` are those of no
    /// progress.
    pub fn empty(item_id: Uuid, item_revision: u64, components: Json) -> (result:
        ItemProgressSnapshot)
        ensures
            result == (ItemProgressSnapshot {
                schema_version: 1,
                item_id,
                item_revision,
                revision: 0,
                components,
                updated_at: None,
            }),
    {
        ItemProgressSnapshot {
            schema_version: 1,
            item_id,
            item_revision,
            revision: 0,
            components,
            updated_at: None,
        }
    }
}

/// The answer to a request to record progress.
#[derive(Debug)]
pub struct ItemProgressMutation {
    pub operation_id: Uuid,
    pub replayed: bool,
    pub progress: ItemProgressSnapshot,
}

/// Whether a user may use the progress of a workspace: nobody has fenced it off, and the
/// user owns it.
pub fn check_owner(fenced: bool, owner: Option<Uuid>) -> (result: Result<(), ItemProgressError>)
    ensures
        result == (if fenced || owner is None {
            Err::<(), ItemProgressError>(ItemProgressError::Unavailable)
        } else {
            Ok(())
        }),
{
    if fenced || owner.is_none() {
        Err(ItemProgressError::Unavailable)
    } else {
        Ok(())
    }
}

/// What is stored of a request that recorded progress.
#[derive(Debug)]
pub struct ProgressReceipt {
    pub item_id: Uuid,
    pub request: Json,
    /// The progress that was answered, if it can be read.
    pub result: Option<ItemProgressSnapshot>,
}

/// The answer to a request that was made before. A request that uses the identifier of
/// another one is refused.
pub fn replay_progress(
    receipt: Option<ProgressReceipt>,
    operation_id: Uuid,
    item_id: Uuid,
    request: &Json,
) -> (result: Result<Option<ItemProgressMutation>, ItemProgressError>)
    ensures
        match receipt {
            None => result matches Ok(answer) && answer is None,
            Some(receipt) => if receipt.item_id != item_id || !crate::json::json_same(
                receipt.request,
                *request,
            ) {
                result matches Err(error) && error == ItemProgressError::OperationReused
            } else {
                match receipt.result {
                    None => result matches Err(error) && error == ItemProgressError::Unavailable,
                    Some(progress) => result matches Ok(answer) && answer == Some(
                        ItemProgressMutation { operation_id, replayed: true, progress },
                    ),
                }
            },
        },
{
    match receipt {
        None => Ok(None),
        Some(receipt) => {
            if receipt.item_id != item_id || !receipt.request.same(request) {
                return Err(ItemProgressError::OperationReused);
            }
            match receipt.result {
                Some(progress) => Ok(
                    Some(ItemProgressMutation { operation_id, replayed: true, progress }),
                ),
                None => Err(ItemProgressError::Unavailable),
            }
        },
    }
}

/// The columns of an item with its progress.
#[derive(Debug)]
pub struct ProgressRow {
    pub item_revision: i64,
    pub progress: Option<StoredProgress>,
}

/// The columns of progress.
#[derive(Debug)]
pub struct StoredProgress {
    pub revision: i64,
    /// The components, if they can be read.
    pub components: Option<Json>,
    /// Whether the components are ones that could be recorded now.
    pub supported: bool,
    pub updated_at: Instant,
}

/// Whether the columns hold progress that can be trusted.
pub open spec fn progress_row_sound(row: ProgressRow) -> bool {
    &&& row.item_revision >= 0
    &&& row.progress matches Some(stored) ==> stored.revision >= 0 && stored.components is Some
        && stored.supported
}

/// Reads the progress on an item. Stored content that could not be recorded now is an
/// error rather than no progress. `none` are the components of no progress.
pub fn progress_from_row(item_id: Uuid, row: Option<ProgressRow>, none: Json) -> (result: Result<
    ItemProgressSnapshot,
    ItemProgressError,
>)
    ensures
        match (result, row) {
            (Err(error), None) => error == ItemProgressError::ItemMissing,
            (Err(error), Some(row)) => error == ItemProgressError::Unavailable
                && !progress_row_sound(row),
            (Ok(snapshot), Some(row)) => {
                &&& progress_row_sound(row)
                &&& snapshot.schema_version == 1
                &&& snapshot.item_id == item_id
                &&& snapshot.item_revision == row.item_revision
                &&& match row.progress {
                    None => snapshot.revision == 0 && snapshot.updated_at is None
                        && snapshot.components == none,
                    Some(stored) => snapshot.revision == stored.revision && Some(
                        snapshot.components,
                    ) == stored.components && snapshot.updated_at == Some(stored.updated_at),
                }
            },
            (Ok(_), None) => false,
        },
{
    let row: ProgressRow = match row {
        Some(row) => row,
        None => {
            return Err(ItemProgressError::ItemMissing);
        },
    };
    let item_revision: u64 = match crate::numbers::unsigned(row.item_revision) {
        Some(value) => value,
        None => {
            return Err(ItemProgressError::Unavailable);
        },
    };
    let stored: StoredProgress = match row.progress {
        Some(stored) => stored,
        None => {
            return Ok(ItemProgressSnapshot::empty(item_id, item_revision, none));
        },
    };
    let revision: u64 = match crate::numbers::unsigned(stored.revision) {
        Some(value) => value,
        None => {
            return Err(ItemProgressError::Unavailable);
        },
    };
    let components: Json = match stored.components {
        Some(components) => components,
        None => {
            return Err(ItemProgressError::Unavailable);
        },
    };
    if !stored.supported {
        return Err(ItemProgressError::Unavailable);
    }
    Ok(
        ItemProgressSnapshot {
            schema_version: 1,
            item_id,
            item_revision,
            revision,
            components,
            updated_at: Some(stored.updated_at),
        },
    )
}

/// What is recorded of new progress.
#[derive(Debug)]
pub struct ProgressRecord {
    /// Whether there was no progress before.
    pub inserts: bool,
    pub revision: i64,
    pub base_revision: Option<i64>,
    /// The operation, as the record of requests names it.
    pub request_id: String,
}

/// What is recorded of new progress on an item: `before` is the revision that the
/// progress had, and `after` the one that it has.
pub fn progress_record(operation_id: Uuid, before: u64, after: u64) -> (result: Result<
    ProgressRecord,
    ItemProgressError,
>)
    ensures
        match result {
            Ok(record) => {
                &&& record.inserts == (before == 0)
                &&& record.revision == after
                &&& match record.base_revision {
                    None => before == 0,
                    Some(base) => before != 0 && base == before,
                }
                &&& record.request_id@ == crate::outside::text_of_uuid(operation_id)
            },
            Err(error) => error == ItemProgressError::Unavailable && (after > i64::MAX || before
                > i64::MAX),
        },
{
    let stored: i64 = revision(after)?;
    let base: i64 = revision(before)?;
    Ok(
        ProgressRecord {
            inserts: before == 0,
            revision: stored,
            base_revision: if before != 0 {
                Some(base)
            } else {
                None
            },
            request_id: uuid_text(operation_id),
        },
    )
}

} // verus!
