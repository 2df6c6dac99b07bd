//! The values that occurrences of routines are kept as.
use vstd::prelude::*;

use crate::items::model::{BlockedReasonKind, ItemKind, ItemStatus};
use crate::json::Json;
use crate::time::{Instant, Uuid};

verus! {

/// How many members, and how many bytes, an occurrence may have.
#[derive(Clone, Copy, Debug, PartialEq, Eq, Structural)]
pub struct OccurrenceLimits {
    pub members: usize,
    pub bytes: usize,
}

/// How a member was open when its occurrence was admitted.
#[derive(Debug)]
pub struct ItemCompletionReopenState {
    pub status: ItemStatus,
    pub blocked_reason_kind: Option<BlockedReasonKind>,
    pub blocked_by_item_id: Option<Uuid>,
    pub blocked_reason: Option<String>,
}

/// An item of a routine, as it was when the occurrence was admitted.
#[derive(Debug)]
pub struct RoutineOccurrenceMemberDefinition {
    pub item_id: Uuid,
    /// The parent within the routine; the root has none.
    pub parent_id: Option<Uuid>,
    pub source_revision: u64,
    pub title: String,
    pub kind: ItemKind,
    pub recurs: bool,
    pub sibling_order: u32,
    pub required_for_parent: bool,
    pub initial_open: ItemCompletionReopenState,
}

/// What an occurrence is of, which never changes.
#[derive(Debug)]
pub struct RoutineOccurrenceManifest {
    pub schema_version: u16,
    pub id: Uuid,
    pub series_item_id: Uuid,
    pub occurrence_id: Uuid,
    /// Which occurrence of the recurrence this is.
    pub identity: Json,
    pub nominal_start: Instant,
    pub nominal_end: Instant,
    pub window_start: Instant,
    pub window_end: Instant,
    pub timezone_name: String,
    pub definition_hash: String,
    pub members: Vec<RoutineOccurrenceMemberDefinition>,
}

/// An occurrence with the present state of its members.
#[derive(Debug)]
pub struct RoutineOccurrenceAggregate {
    pub manifest: RoutineOccurrenceManifest,
    pub revision: u64,
    /// The state of each member.
    pub members: Vec<Json>,
}

/// An occurrence as it is shown.
#[derive(Debug)]
pub struct RoutineOccurrenceSnapshot {
    pub aggregate: RoutineOccurrenceAggregate,
    pub evidence_hash: String,
    /// Whether the occurrence may be changed as it is shown.
    pub fresh_edit_eligible: bool,
}

/// What is answered to a change of an occurrence.
#[derive(Debug)]
pub struct RoutineOccurrenceMutation {
    pub operation_id: Uuid,
    pub replayed: bool,
    pub occurrence: RoutineOccurrenceSnapshot,
}

/// Why an operation on occurrences of routines is refused.
#[derive(Clone, Copy, Debug, PartialEq, Eq, Structural)]
pub enum RoutineOccurrenceError {
    DefinitionChanged,
    EvidenceStale,
    Invalid,
    InvalidCursor,
    OccurrenceMissing,
    OperationReused,
    SourceIneligible,
    TooLarge,
    Unavailable,
}

/// Any failure of the storage makes occurrences unavailable.
pub fn storage<T>(_error: T) -> (result: RoutineOccurrenceError)
    ensures
        result == RoutineOccurrenceError::Unavailable,
{
    RoutineOccurrenceError::Unavailable
}

/// A number as the database stores it.
pub fn signed(value: u64) -> (result: Result<i64, RoutineOccurrenceError>)
    ensures
        match result {
            Ok(stored) => stored == value,
            Err(error) => value > i64::MAX && error == RoutineOccurrenceError::TooLarge,
        },
{
    match crate::numbers::signed(value) {
        Some(stored) => Ok(stored),
        None => Err(RoutineOccurrenceError::TooLarge),
    }
}

/// A number that is not negative, from what the database stores.
pub fn unsigned(value: i64) -> (result: Result<u64, RoutineOccurrenceError>)
    ensures
        match result {
            Ok(number) => number == value,
            Err(error) => value < 0 && error == RoutineOccurrenceError::Unavailable,
        },
{
    match crate::numbers::unsigned(value) {
        Some(number) => Ok(number),
        None => Err(RoutineOccurrenceError::Unavailable),
    }
}

/// Whether occurrences may be read or changed in a workspace: by its owner, while
/// neither is about to be deleted.
pub fn check_owner(permitted: bool) -> (result: Result<(), RoutineOccurrenceError>)
    ensures
        result == (if permitted {
            Ok::<(), RoutineOccurrenceError>(())
        } else {
            Err(RoutineOccurrenceError::Unavailable)
        }),
{
    if permitted {
        Ok(())
    } else {
        Err(RoutineOccurrenceError::Unavailable)
    }
}

/// Whether a document of so many bytes may be stored or shown.
pub fn check_size(bytes: usize, limits: OccurrenceLimits) -> (result: Result<
    (),
    RoutineOccurrenceError,
>)
    ensures
        result == (if bytes > limits.bytes {
            Err::<(), RoutineOccurrenceError>(RoutineOccurrenceError::TooLarge)
        } else {
            Ok(())
        }),
{
    if bytes > limits.bytes {
        Err(RoutineOccurrenceError::TooLarge)
    } else {
        Ok(())
    }
}

/// Whether a stored occurrence can be read: there is one, and it is not too large.
/// `size` is how many bytes are stored for it.
pub fn check_stored_size(size: Option<i64>, limits: OccurrenceLimits) -> (result: Result<
    (),
    RoutineOccurrenceError,
>)
    ensures
        match size {
            None => result == Err::<(), RoutineOccurrenceError>(
                RoutineOccurrenceError::OccurrenceMissing,
            ),
            Some(bytes) => result == (if bytes < 0 || bytes > limits.bytes {
                Err::<(), RoutineOccurrenceError>(RoutineOccurrenceError::TooLarge)
            } else {
                Ok(())
            }),
        },
{
    match size {
        None => Err(RoutineOccurrenceError::OccurrenceMissing),
        Some(bytes) => {
            if bytes < 0 || bytes as u128 > limits.bytes as u128 {
                Err(RoutineOccurrenceError::TooLarge)
            } else {
                Ok(())
            }
        },
    }
}

/// Reads a stored occurrence. `stored` is what is stored under the identifier, if it can
/// be read and is sound.
pub fn read_aggregate(id: Uuid, stored: Option<RoutineOccurrenceAggregate>) -> (result: Result<
    RoutineOccurrenceAggregate,
    RoutineOccurrenceError,
>)
    ensures
        match result {
            Ok(aggregate) => stored == Some(aggregate) && aggregate.manifest.id == id,
            Err(error) => error == RoutineOccurrenceError::Unavailable && !(stored matches Some(
                aggregate,
            ) && aggregate.manifest.id == id),
        },
{
    match stored {
        Some(aggregate) => {
            if aggregate.manifest.id != id {
                Err(RoutineOccurrenceError::Unavailable)
            } else {
                Ok(aggregate)
            }
        },
        None => Err(RoutineOccurrenceError::Unavailable),
    }
}

/// A change of an occurrence that was answered before.
#[derive(Debug)]
pub struct OccurrenceReceipt {
    pub instance_id: Uuid,
    pub member_id: Uuid,
    pub request: Json,
    /// What was answered, if it can be read and is sound.
    pub result: Option<RoutineOccurrenceSnapshot>,
}

/// Whether a receipt is that of a request.
pub open spec fn receipt_matches(
    receipt: OccurrenceReceipt,
    instance_id: Uuid,
    member_id: Uuid,
    request: Json,
) -> bool {
    receipt.instance_id == instance_id && receipt.member_id == member_id
        && crate::json::json_same(receipt.request, request)
}

/// Answers a change that was answered before as it was then, or gives `None` if it was
/// not. The same operation cannot ask for anything else.
pub fn replay_occurrence(
    receipt: Option<OccurrenceReceipt>,
    operation_id: Uuid,
    instance_id: Uuid,
    member_id: Uuid,
    request: &Json,
) -> (result: Result<Option<RoutineOccurrenceMutation>, RoutineOccurrenceError>)
    ensures
        match receipt {
            None => result matches Ok(answer) && answer is None,
            Some(receipt) => if !receipt_matches(receipt, instance_id, member_id, *request) {
                result matches Err(error) && error == RoutineOccurrenceError::OperationReused
            } else {
                match receipt.result {
                    None => result matches Err(error) && error
                        == RoutineOccurrenceError::Unavailable,
                    Some(occurrence) => result matches Ok(answer) && answer == Some(
                        RoutineOccurrenceMutation { operation_id, replayed: true, occurrence },
                    ),
                }
            },
        },
{
    match receipt {
        None => Ok(None),
        Some(receipt) => {
            if receipt.instance_id != instance_id || receipt.member_id != member_id
                || !receipt.request.same(request) {
                return Err(RoutineOccurrenceError::OperationReused);
            }
            match receipt.result {
                Some(occurrence) => Ok(
                    Some(RoutineOccurrenceMutation { operation_id, replayed: true, occurrence }),
                ),
                None => Err(RoutineOccurrenceError::Unavailable),
            }
        },
    }
}

} // verus!
