//! Keys by which a request that is sent twice is carried out once.
use vstd::prelude::*;

use crate::hashing::{hash_text, same_bytes};
use crate::items::model::same_optional_json;
use crate::json::Json;
use crate::outside::current_instant;
use crate::text::{byte_length, is_blank, same_text};
use crate::time::{Instant, Uuid};

verus! {

/// What becomes of a request with a key.
#[derive(Debug)]
pub enum IdempotencyDecision {
    /// The key is new, and the request is carried out.
    Acquired,
    /// The same request is being carried out.
    InProgress,
    /// The same request was carried out, and this was the answer.
    Replay { resource_id: Option<Uuid>, response: Option<Json> },
    /// The key was used for another request.
    Conflict,
}

/// Why an operation on keys is refused.
#[derive(Clone, Copy, Debug, PartialEq, Eq, Structural)]
pub enum IdempotencyError {
    InvalidInput,
    NotFound,
    Conflict,
    Storage,
}

/// Any failure of the storage.
pub fn storage<T>(_error: T) -> (result: IdempotencyError)
    ensures
        result == IdempotencyError::Storage,
{
    IdempotencyError::Storage
}

/// Whether a reservation stands: a name space, a key and a fingerprint of fitting sizes,
/// and an expiry in the future.
pub open spec fn reservation_valid(
    namespace: Seq<char>,
    raw_key: Seq<char>,
    fingerprint: Seq<u8>,
    expires_at: Instant,
    now: Instant,
) -> bool {
    &&& !crate::text::blank(namespace)
    &&& vstd::utf8::encode_utf8(namespace).len() <= 100
    &&& 8 <= vstd::utf8::encode_utf8(raw_key).len() <= 500
    &&& fingerprint.len() >= 16
    &&& expires_at > now
}

/// Whether a reservation stands at `now`.
pub fn validate_at(
    namespace: &str,
    raw_key: &str,
    request_fingerprint: &Vec<u8>,
    expires_at: Instant,
    now: Instant,
) -> (result: Result<(), IdempotencyError>)
    ensures
        result == (if reservation_valid(
            namespace@,
            raw_key@,
            request_fingerprint@,
            expires_at,
            now,
        ) {
            Ok::<(), IdempotencyError>(())
        } else {
            Err(IdempotencyError::InvalidInput)
        }),
{
    if is_blank(namespace) || byte_length(namespace) > 100 || byte_length(raw_key) < 8
        || byte_length(raw_key) > 500 || request_fingerprint.len() < 16 || expires_at <= now {
        Err(IdempotencyError::InvalidInput)
    } else {
        Ok(())
    }
}

/// Whether a reservation stands now.
pub fn validate(
    namespace: &str,
    raw_key: &str,
    request_fingerprint: &Vec<u8>,
    expires_at: Instant,
) -> (result: Result<(), IdempotencyError>)
    ensures
        exists|now: Instant|
            #[trigger] crate::time::in_time_range(now) && result == (if reservation_valid(
                namespace@,
                raw_key@,
                request_fingerprint@,
                expires_at,
                now,
            ) {
                Ok::<(), IdempotencyError>(())
            } else {
                Err(IdempotencyError::InvalidInput)
            }),
{
    let now: Instant = current_instant();
    validate_at(namespace, raw_key, request_fingerprint, expires_at, now)
}

/// The digest under which a key is kept, so that the key itself is not.
pub fn hash_key(raw_key: &str) -> (result: [u8; 32])
    ensures
        result@ == crate::outside::sha256_of(vstd::utf8::encode_utf8(raw_key@)),
{
    hash_text(raw_key)
}

/// What is stored of an earlier request with the same key.
#[derive(Debug)]
pub struct StoredReservation {
    pub request_fingerprint: Vec<u8>,
    pub state: String,
    pub resource_id: Option<Uuid>,
    pub response: Option<Json>,
}

/// What becomes of a request, given what is stored under its key.
pub open spec fn decision_of(existing: Option<StoredReservation>, fingerprint: Seq<u8>) -> IdempotencyDecision {
    match existing {
        None => IdempotencyDecision::Acquired,
        Some(row) => if row.request_fingerprint@ != fingerprint {
            IdempotencyDecision::Conflict
        } else if row.state@ == "completed"@ {
            IdempotencyDecision::Replay { resource_id: row.resource_id, response: row.response }
        } else {
            IdempotencyDecision::InProgress
        },
    }
}

/// What becomes of a request, given what is stored under its key, if its key was used
/// before.
pub fn reserve(existing: Option<StoredReservation>, request_fingerprint: &Vec<u8>) -> (result:
    IdempotencyDecision)
    ensures
        result == decision_of(existing, request_fingerprint@),
{
    match existing {
        None => IdempotencyDecision::Acquired,
        Some(row) => {
            if !same_bytes(&row.request_fingerprint, request_fingerprint) {
                IdempotencyDecision::Conflict
            } else if same_text(row.state.as_str(), "completed") {
                IdempotencyDecision::Replay {
                    resource_id: row.resource_id,
                    response: row.response,
                }
            } else {
                IdempotencyDecision::InProgress
            }
        },
    }
}

/// Whether the completion of a request stands.
pub open spec fn completion_valid(
    namespace: Seq<char>,
    raw_key: Seq<char>,
    fingerprint: Seq<u8>,
    resource_type: Option<Seq<char>>,
) -> bool {
    &&& !crate::text::blank(namespace)
    &&& raw_key.len() > 0
    &&& fingerprint.len() >= 16
    &&& resource_type is Some ==> !crate::text::blank(resource_type->0)
}

/// Whether the completion of a request stands.
pub fn validate_completion(
    namespace: &str,
    raw_key: &str,
    request_fingerprint: &Vec<u8>,
    resource_type: &Option<String>,
) -> (result: Result<(), IdempotencyError>)
    ensures
        result == (if completion_valid(
            namespace@,
            raw_key@,
            request_fingerprint@,
            crate::text::optional_text(*resource_type),
        ) {
            Ok::<(), IdempotencyError>(())
        } else {
            Err(IdempotencyError::InvalidInput)
        }),
{
    let blank_type: bool = match resource_type {
        Some(text) => is_blank(text.as_str()),
        None => false,
    };
    let empty_key: bool = raw_key.is_empty();
    if is_blank(namespace) || empty_key || request_fingerprint.len() < 16 || blank_type {
        Err(IdempotencyError::InvalidInput)
    } else {
        Ok(())
    }
}

/// A request that is or was carried out, as it is stored.
#[derive(Debug)]
pub struct StoredCompletion {
    pub request_fingerprint: Vec<u8>,
    pub state: String,
    pub resource_type: Option<String>,
    pub resource_id: Option<Uuid>,
    pub response: Option<Json>,
}

/// The answer to a request that was carried out.
#[derive(Debug)]
pub struct CompletedRequest {
    pub resource_type: Option<String>,
    pub resource_id: Option<Uuid>,
    pub response: Option<Json>,
}

/// Whether a stored answer is the one that is given.
pub open spec fn same_answer(stored: StoredCompletion, given: CompletedRequest) -> bool {
    &&& crate::text::optional_text(stored.resource_type) == crate::text::optional_text(
        given.resource_type,
    )
    &&& stored.resource_id == given.resource_id
    &&& crate::json::optional_json_same(stored.response, given.response)
}

/// Whether the answer to a request is to be written: `Ok(false)` if it stands already.
pub open spec fn completion_of(
    stored: Option<StoredCompletion>,
    fingerprint: Seq<u8>,
    given: CompletedRequest,
) -> Result<bool, IdempotencyError> {
    match stored {
        None => Err(IdempotencyError::NotFound),
        Some(row) => if row.request_fingerprint@ != fingerprint {
            Err(IdempotencyError::Conflict)
        } else if row.state@ != "completed"@ {
            Ok(true)
        } else if same_answer(row, given) {
            Ok(false)
        } else {
            Err(IdempotencyError::Conflict)
        },
    }
}

/// Whether the answer to a request is to be written. The same answer may be given
/// again, but not another one.
pub fn complete(
    stored: Option<StoredCompletion>,
    request_fingerprint: &Vec<u8>,
    given: &CompletedRequest,
) -> (result: Result<bool, IdempotencyError>)
    ensures
        result == completion_of(stored, request_fingerprint@, *given),
{
    match stored {
        None => Err(IdempotencyError::NotFound),
        Some(row) => {
            if !same_bytes(&row.request_fingerprint, request_fingerprint) {
                return Err(IdempotencyError::Conflict);
            }
            if !same_text(row.state.as_str(), "completed") {
                return Ok(true);
            }
            if crate::text::same_optional_text(&row.resource_type, &given.resource_type)
                && row.resource_id == given.resource_id && same_optional_json(
                &row.response,
                &given.response,
            ) {
                Ok(false)
            } else {
                Err(IdempotencyError::Conflict)
            }
        },
    }
}

/// A request that was answered is answered the same way again, and another request with
/// its key is refused.
pub proof fn answered_request_is_replayed(
    row: StoredReservation,
    fingerprint: Seq<u8>,
    other: Seq<u8>,
)
    requires
        row.request_fingerprint@ == fingerprint,
        row.state@ == "completed"@,
        other != fingerprint,
    ensures
        decision_of(Some(row), fingerprint) == (IdempotencyDecision::Replay {
            resource_id: row.resource_id,
            response: row.response,
        }),
        decision_of(Some(row), other) == IdempotencyDecision::Conflict,
{
}

/// The answer that is stored is not written over: giving it again changes nothing, and
/// giving another one is refused.
pub proof fn stored_answer_stays(
    row: StoredCompletion,
    fingerprint: Seq<u8>,
    given: CompletedRequest,
)
    requires
        row.state@ == "completed"@,
    ensures
        completion_of(Some(row), fingerprint, given) != Ok::<bool, IdempotencyError>(true),
{
}

/// What is kept of a request under the digest of its key, until it expires. There is an
/// answer once the request was carried out.
#[derive(Debug)]
pub struct IdempotencyRow {
    pub key_hash: [u8; 32],
    pub request_fingerprint: Vec<u8>,
    pub expires_at: Instant,
    pub answer: Option<CompletedRequest>,
}

/// Whether a row is what is kept of a new request: the digest of its key and not the key.
pub open spec fn keeps_request(
    row: IdempotencyRow,
    raw_key: Seq<char>,
    fingerprint: Seq<u8>,
    expires_at: Instant,
) -> bool {
    &&& row.key_hash@ == crate::outside::sha256_of(vstd::utf8::encode_utf8(raw_key))
    &&& row.request_fingerprint@ == fingerprint
    &&& row.expires_at == expires_at
    &&& row.answer is None
}

/// What is kept of a new request.
pub fn reserved_row(raw_key: &str, request_fingerprint: &Vec<u8>, expires_at: Instant) -> (result:
    IdempotencyRow)
    ensures
        keeps_request(result, raw_key@, request_fingerprint@, expires_at),
{
    let mut fingerprint: Vec<u8> = Vec::new();
    let mut i: usize = 0;
    while i < request_fingerprint.len()
        invariant
            i <= request_fingerprint@.len(),
            fingerprint@ == request_fingerprint@.take(i as int),
        decreases request_fingerprint.len() - i,
    {
        fingerprint.push(request_fingerprint[i]);
        i = i + 1;
        assert(fingerprint@ =~= request_fingerprint@.take(i as int));
    }
    assert(request_fingerprint@.take(i as int) =~= request_fingerprint@);
    IdempotencyRow {
        key_hash: hash_key(raw_key),
        request_fingerprint: fingerprint,
        expires_at,
        answer: None,
    }
}

/// What stands of a request at an instant: nothing once it has expired.
pub open spec fn standing(row: Option<IdempotencyRow>, now: Instant) -> Option<IdempotencyRow> {
    match row {
        Some(kept) => if kept.expires_at > now {
            Some(kept)
        } else {
            None
        },
        None => None,
    }
}

/// Whether columns hold what is kept of a request.
pub open spec fn reads_as_reservation(row: IdempotencyRow, stored: StoredReservation) -> bool {
    &&& stored.request_fingerprint@ == row.request_fingerprint@
    &&& (stored.state@ == "completed"@) == (row.answer is Some)
    &&& row.answer matches Some(answer) ==> stored.resource_id == answer.resource_id
        && crate::json::optional_json_same(answer.response, stored.response)
}

/// Whether columns hold what is kept of a request, with its answer.
pub open spec fn reads_as_completion(row: IdempotencyRow, stored: StoredCompletion) -> bool {
    &&& stored.request_fingerprint@ == row.request_fingerprint@
    &&& (stored.state@ == "completed"@) == (row.answer is Some)
    &&& row.answer matches Some(answer) ==> same_answer(stored, answer)
}

/// A key that was acquired stands for one request until it expires: the same request is in
/// progress until it is completed, is then answered with what it was completed with, and
/// can be completed once more only with the same answer; another request with the key is
/// refused before and after. Of the key only a digest is kept.
pub proof fn reservation_stands_for_one_request(
    raw_key: Seq<char>,
    fingerprint: Seq<u8>,
    other: Seq<u8>,
    expires_at: Instant,
    now: Instant,
    acquired: IdempotencyRow,
    given: CompletedRequest,
    first: StoredReservation,
    pending: StoredCompletion,
    second: StoredReservation,
)
    requires
        keeps_request(acquired, raw_key, fingerprint, expires_at),
        now < expires_at,
        other != fingerprint,
        reads_as_reservation(acquired, first),
        reads_as_completion(acquired, pending),
        reads_as_reservation(IdempotencyRow { answer: Some(given), ..acquired }, second),
    ensures
        acquired.key_hash@ == crate::outside::sha256_of(vstd::utf8::encode_utf8(raw_key)),
        standing(Some(acquired), now) == Some(acquired),
        decision_of(Some(first), fingerprint) == IdempotencyDecision::InProgress,
        decision_of(Some(first), other) == IdempotencyDecision::Conflict,
        completion_of(Some(pending), fingerprint, given) == Ok::<bool, IdempotencyError>(true),
        completion_of(Some(pending), other, given) == Err::<bool, IdempotencyError>(
            IdempotencyError::Conflict,
        ),
        standing(Some(IdempotencyRow { answer: Some(given), ..acquired }), now) == Some(
            (IdempotencyRow { answer: Some(given), ..acquired }),
        ),
        decision_of(Some(second), fingerprint) matches IdempotencyDecision::Replay {
            resource_id,
            response,
        } && resource_id == given.resource_id && crate::json::optional_json_same(
            given.response,
            response,
        ),
        decision_of(Some(second), other) == IdempotencyDecision::Conflict,
        standing(Some(acquired), expires_at) is None,
        decision_of(None, other) == IdempotencyDecision::Acquired,
{
}

/// How many expired keys are removed at once at most.
pub const MAX_PURGE: u32 = 10_000;

/// Whether so many expired keys may be removed at once.
pub fn validate_purge(limit: u32) -> (result: Result<i64, IdempotencyError>)
    ensures
        match result {
            Ok(count) => 0 < limit <= MAX_PURGE && count == limit,
            Err(error) => (limit == 0 || limit > MAX_PURGE) && error
                == IdempotencyError::InvalidInput,
        },
{
    if limit == 0 || limit > MAX_PURGE {
        Err(IdempotencyError::InvalidInput)
    } else {
        Ok(limit as i64)
    }
}

} // verus!
