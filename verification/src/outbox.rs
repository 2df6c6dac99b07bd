//! Messages that are delivered at least once.
use vstd::prelude::*;

use crate::json::Json;
use crate::outside::current_instant;
use crate::text::{is_blank, longer_than, same_text};
use crate::time::{Instant, Uuid};

verus! {

/// A message that is to be delivered.
#[derive(Debug)]
pub struct NewOutboxMessage {
    pub aggregate_type: String,
    pub aggregate_id: Uuid,
    pub aggregate_revision: Option<u64>,
    pub event_type: String,
    pub deduplication_key: Option<String>,
    pub payload: Json,
    pub headers: Json,
    pub available_at: Instant,
}

/// A message that a worker has claimed.
#[derive(Debug)]
pub struct OutboxMessage {
    pub id: Uuid,
    pub aggregate_type: String,
    pub aggregate_id: Uuid,
    pub aggregate_revision: Option<u64>,
    pub event_type: String,
    pub payload: Json,
    pub headers: Json,
    pub attempts: u32,
    pub available_at: Instant,
    pub claimed_by: Option<String>,
    pub claimed_at: Option<Instant>,
    pub created_at: Instant,
}

/// Why an operation on messages is refused.
#[derive(Clone, Copy, Debug, PartialEq, Eq, Structural)]
pub enum OutboxError {
    InvalidInput,
    Duplicate,
    LeaseLost,
    Storage,
}

/// Any failure of the storage.
pub fn storage<T>(_error: T) -> (result: OutboxError)
    ensures
        result == OutboxError::Storage,
{
    OutboxError::Storage
}

/// Whether a message can be delivered: its names and its key are neither blank nor too
/// long, and its payload and its headers are objects.
pub open spec fn message_valid(message: NewOutboxMessage) -> bool {
    &&& !crate::text::blank(message.aggregate_type@)
    &&& message.aggregate_type@.len() <= 100
    &&& !crate::text::blank(message.event_type@)
    &&& message.event_type@.len() <= 150
    &&& message.deduplication_key matches Some(key) ==> 0 < key@.len() <= 500
    &&& message.payload is Object
    &&& message.headers is Object
}

/// Whether a message can be delivered.
pub fn validate_message(message: &NewOutboxMessage) -> (result: Result<(), OutboxError>)
    ensures
        result == (if message_valid(*message) {
            Ok::<(), OutboxError>(())
        } else {
            Err(OutboxError::InvalidInput)
        }),
{
    let bad_key: bool = match &message.deduplication_key {
        Some(key) => {
            let empty: bool = key.as_str().is_empty();
            empty || longer_than(key.as_str(), 500)
        },
        None => false,
    };
    if is_blank(message.aggregate_type.as_str()) || longer_than(
        message.aggregate_type.as_str(),
        100,
    ) || is_blank(message.event_type.as_str()) || longer_than(message.event_type.as_str(), 150)
        || bad_key || !message.payload.is_object() || !message.headers.is_object() {
        Err(OutboxError::InvalidInput)
    } else {
        Ok(())
    }
}

/// The revision of a message as the database stores it, if the message can be delivered.
pub fn message_revision(message: &NewOutboxMessage) -> (result: Result<Option<i64>, OutboxError>)
    ensures
        match result {
            Ok(stored) => {
                &&& message_valid(*message)
                &&& match (stored, message.aggregate_revision) {
                    (Some(column), Some(revision)) => column == revision,
                    (None, None) => true,
                    _ => false,
                }
            },
            Err(error) => error == OutboxError::InvalidInput && (!message_valid(*message) || (
            message.aggregate_revision is Some && message.aggregate_revision->0 > i64::MAX)),
        },
{
    validate_message(message)?;
    match message.aggregate_revision {
        None => Ok(None),
        Some(revision) => match crate::numbers::signed(revision) {
            Some(stored) => Ok(Some(stored)),
            None => Err(OutboxError::InvalidInput),
        },
    }
}

/// Why a message could not be stored: there is one with its key.
pub fn map_insert_error(code: Option<&str>) -> (result: OutboxError)
    ensures
        result == (if code is Some && code->0@ == "23505"@ {
            OutboxError::Duplicate
        } else {
            OutboxError::Storage
        }),
{
    match code {
        Some(text) => if same_text(text, "23505") {
            OutboxError::Duplicate
        } else {
            OutboxError::Storage
        },
        None => OutboxError::Storage,
    }
}

/// How long a claim lasts at most: an hour, in nanoseconds.
pub const MAX_LEASE: i128 = 3_600_000_000_000;

/// Whether a worker may claim so many messages for so long.
pub open spec fn claim_valid(worker_id: Seq<char>, limit: u32, lease: i128) -> bool {
    &&& !crate::text::blank(worker_id)
    &&& worker_id.len() <= 200
    &&& 0 < limit <= 1_000
    &&& 0 < lease <= MAX_LEASE
}

/// The instant before which the claims of other workers have lapsed, for a worker that
/// claims messages at `now`.
pub fn claim_at(worker_id: &str, limit: u32, lease: i128, now: Instant) -> (result: Result<
    Instant,
    OutboxError,
>)
    requires
        crate::time::in_time_range(now),
    ensures
        result == (if claim_valid(worker_id@, limit, lease) {
            Ok::<Instant, OutboxError>((now - lease) as Instant)
        } else {
            Err(OutboxError::InvalidInput)
        }),
{
    if is_blank(worker_id) || longer_than(worker_id, 200) || limit == 0 || limit > 1_000 || lease
        <= 0 || lease > MAX_LEASE {
        Err(OutboxError::InvalidInput)
    } else {
        Ok(now - lease)
    }
}

/// The instant before which the claims of other workers have lapsed, for a worker that
/// claims messages now.
pub fn claim(worker_id: &str, limit: u32, lease: i128) -> (result: Result<Instant, OutboxError>)
    ensures
        match result {
            Ok(before) => claim_valid(worker_id@, limit, lease) && exists|now: Instant|
                #[trigger] crate::time::in_time_range(now) && before == now - lease,
            Err(error) => !claim_valid(worker_id@, limit, lease) && error
                == OutboxError::InvalidInput,
        },
{
    let now: Instant = current_instant();
    claim_at(worker_id, limit, lease, now)
}

/// Whether a worker has a name.
pub fn validate_worker(worker_id: &str) -> (result: Result<(), OutboxError>)
    ensures
        result == (if crate::text::blank(worker_id@) {
            Err::<(), OutboxError>(OutboxError::InvalidInput)
        } else {
            Ok(())
        }),
{
    if is_blank(worker_id) {
        Err(OutboxError::InvalidInput)
    } else {
        Ok(())
    }
}

/// Whether a failed delivery can be put off: with a short code, to a later instant.
pub open spec fn failure_valid(
    worker_id: Seq<char>,
    error_code: Seq<char>,
    retry_at: Instant,
    now: Instant,
) -> bool {
    &&& !crate::text::blank(worker_id)
    &&& !crate::text::blank(error_code)
    &&& error_code.len() <= 100
    &&& retry_at > now
}

/// Whether a failed delivery can be put off at `now`.
pub fn validate_failure_at(worker_id: &str, error_code: &str, retry_at: Instant, now: Instant) -> (result:
    Result<(), OutboxError>)
    ensures
        result == (if failure_valid(worker_id@, error_code@, retry_at, now) {
            Ok::<(), OutboxError>(())
        } else {
            Err(OutboxError::InvalidInput)
        }),
{
    if is_blank(worker_id) || is_blank(error_code) || longer_than(error_code, 100) || retry_at
        <= now {
        Err(OutboxError::InvalidInput)
    } else {
        Ok(())
    }
}

/// Whether a failed delivery can be put off now.
pub fn validate_failure(worker_id: &str, error_code: &str, retry_at: Instant) -> (result: Result<
    (),
    OutboxError,
>)
    ensures
        exists|now: Instant|
            #[trigger] crate::time::in_time_range(now) && result == (if failure_valid(
                worker_id@,
                error_code@,
                retry_at,
                now,
            ) {
                Ok::<(), OutboxError>(())
            } else {
                Err(OutboxError::InvalidInput)
            }),
{
    let now: Instant = current_instant();
    validate_failure_at(worker_id, error_code, retry_at, now)
}

/// Whether a worker still had its claim. `affected` is how many messages it changed.
pub fn check_lease(affected: u64) -> (result: Result<(), OutboxError>)
    ensures
        result == (if affected == 1 {
            Ok::<(), OutboxError>(())
        } else {
            Err(OutboxError::LeaseLost)
        }),
{
    if affected == 1 {
        Ok(())
    } else {
        Err(OutboxError::LeaseLost)
    }
}

/// The columns of a message that a worker has claimed.
#[derive(Debug)]
pub struct OutboxRow {
    pub id: Uuid,
    pub aggregate_type: String,
    pub aggregate_id: Uuid,
    pub aggregate_revision: Option<i64>,
    pub event_type: String,
    pub payload: Json,
    pub headers: Json,
    pub attempts: i32,
    pub available_at: Instant,
    pub claimed_by: Option<String>,
    pub claimed_at: Option<Instant>,
    pub created_at: Instant,
}

/// Whether the numbers of a row are not negative.
pub open spec fn outbox_row_sound(row: OutboxRow) -> bool {
    (row.aggregate_revision is Some ==> row.aggregate_revision->0 >= 0) && row.attempts >= 0
}

/// Reads a message that a worker has claimed.
pub fn message_from_row(row: OutboxRow) -> (result: Result<OutboxMessage, OutboxError>)
    ensures
        match result {
            Ok(message) => {
                &&& outbox_row_sound(row)
                &&& message.id == row.id
                &&& message.aggregate_type == row.aggregate_type
                &&& message.aggregate_id == row.aggregate_id
                &&& match (message.aggregate_revision, row.aggregate_revision) {
                    (Some(revision), Some(column)) => revision == column,
                    (None, None) => true,
                    _ => false,
                }
                &&& message.event_type == row.event_type
                &&& message.payload == row.payload
                &&& message.headers == row.headers
                &&& message.attempts == row.attempts
                &&& message.available_at == row.available_at
                &&& message.claimed_by == row.claimed_by
                &&& message.claimed_at == row.claimed_at
                &&& message.created_at == row.created_at
            },
            Err(error) => error == OutboxError::Storage && !outbox_row_sound(row),
        },
{
    let aggregate_revision: Option<u64> = match row.aggregate_revision {
        None => None,
        Some(column) => match crate::numbers::unsigned(column) {
            Some(revision) => Some(revision),
            None => {
                return Err(OutboxError::Storage);
            },
        },
    };
    if row.attempts < 0 {
        return Err(OutboxError::Storage);
    }
    Ok(
        OutboxMessage {
            id: row.id,
            aggregate_type: row.aggregate_type,
            aggregate_id: row.aggregate_id,
            aggregate_revision,
            event_type: row.event_type,
            payload: row.payload,
            headers: row.headers,
            attempts: row.attempts as u32,
            available_at: row.available_at,
            claimed_by: row.claimed_by,
            claimed_at: row.claimed_at,
            created_at: row.created_at,
        },
    )
}

} // verus!
