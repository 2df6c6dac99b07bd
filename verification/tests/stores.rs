use dayweave_api::admission::{
    close, deletion_error, is_drained, map_error, register, settle, validate_ids, AdmissionState,
    AccountDeletionRepositoryError, DrainState, OperationOwner, ProviderAdmissionError,
};
use dayweave_api::hashing::{
    encoded_hash, hash_bytes, hash_in_domain, hash_text, number_bytes, read_hash, signed_bytes,
};
use dayweave_api::idempotency::{
    complete, hash_key, reserve, reserved_row, validate_at, validate_completion, validate_purge,
    CompletedRequest, IdempotencyDecision, IdempotencyError, StoredCompletion, StoredReservation,
};
use dayweave_api::json::{Json, JsonNumber};
use dayweave_api::outbox::{
    check_lease, claim_at, map_insert_error, message_from_row, message_revision,
    validate_failure_at, validate_message, validate_worker, NewOutboxMessage, OutboxError,
    OutboxRow,
};
use dayweave_api::time::{
    floor_div, timestamp_micros, truncate_to_micros, CalendarDate, DatabaseScope, HOUR, SECOND,
};

const NOON: i128 = 1_788_523_200_000_000_000;

#[test]
fn hashes_are_stable_and_do_not_retain_the_raw_key() {
    let raw = "conversation-key-123";
    assert_eq!(hash_key(raw), hash_key(raw));
    assert_ne!(hash_key(raw).as_slice(), raw.as_bytes());
}

#[test]
fn digests_are_those_of_the_standard() {
    let abc = "sha256:ba7816bf8f01cfea414140de5dae2223b00361a396177a9cb410ff61f20015ad";
    assert_eq!(encoded_hash(hash_text("abc")), abc);
    assert_eq!(encoded_hash(hash_bytes(&b"abc".to_vec())), abc);
    assert_eq!(hash_in_domain("a", &b"bc".to_vec()), hash_text("abc"));
    assert_eq!(read_hash(abc), Some(hash_text("abc")));
    assert_eq!(read_hash(&abc.to_uppercase()), None);
    assert_eq!(
        read_hash(&format!("sha256:{}", "AB".repeat(32))),
        Some([0xab; 32])
    );
    assert_eq!(read_hash("sha256:"), None);
}

#[test]
fn numbers_are_written_from_the_most_significant_byte() {
    assert_eq!(number_bytes(0x0102_0304, 4), vec![1, 2, 3, 4]);
    assert_eq!(number_bytes(7, 2), vec![0, 7]);
    assert_eq!(signed_bytes(-2), (-2_i64).to_be_bytes().to_vec());
    assert_eq!(signed_bytes(i64::MIN), i64::MIN.to_be_bytes().to_vec());
    assert_eq!(signed_bytes(300), 300_i64.to_be_bytes().to_vec());
}

#[test]
fn time_is_rounded_towards_the_past() {
    assert_eq!(floor_div(-1, 1_000), -1);
    assert_eq!(floor_div(-1_000, 1_000), -1);
    assert_eq!(floor_div(1_999, 1_000), 1);
    assert_eq!(timestamp_micros(-1), -1);
    assert_eq!(truncate_to_micros(-1), -1_000);
    assert_eq!(truncate_to_micros(NOON + 999), NOON);
    assert_eq!(CalendarDate::new(2023, 2, 29), None);
    assert!(CalendarDate::new(2024, 2, 29).is_some());
    assert_eq!(CalendarDate::new(2024, 13, 1), None);
    let earlier = CalendarDate::new(2024, 2, 29).unwrap();
    let later = CalendarDate::new(2024, 3, 1).unwrap();
    assert!(earlier.is_before(&later));
    assert!(!later.is_before(&earlier));
}

#[test]
fn reservations_are_checked_before_they_are_made() {
    let fingerprint = vec![7; 32];
    assert!(validate_at("proposals.create", "key-12345", &fingerprint, NOON + HOUR, NOON).is_ok());
    for (namespace, key, print, expires_at) in [
        ("", "key-12345", vec![7; 32], NOON + HOUR),
        ("proposals.create", "short", vec![7; 32], NOON + HOUR),
        ("proposals.create", "key-12345", vec![7; 15], NOON + HOUR),
        ("proposals.create", "key-12345", vec![7; 32], NOON),
    ] {
        assert_eq!(
            validate_at(namespace, key, &print, expires_at, NOON),
            Err(IdempotencyError::InvalidInput)
        );
    }
    assert_eq!(validate_purge(10_000), Ok(10_000));
    assert_eq!(validate_purge(10_001), Err(IdempotencyError::InvalidInput));
    assert_eq!(validate_purge(0), Err(IdempotencyError::InvalidInput));
    assert!(validate_completion("proposals.create", "key-12345", &fingerprint, &None).is_ok());
}

#[test]
fn a_request_is_answered_once_and_then_replayed() {
    let stored = |state: &str, fingerprint: u8| {
        Some(StoredReservation {
            request_fingerprint: vec![fingerprint; 32],
            state: state.to_owned(),
            resource_id: Some(5),
            response: Some(Json::Number(JsonNumber::Unsigned(9))),
        })
    };
    let print = vec![7; 32];
    assert!(matches!(reserve(None, &print), IdempotencyDecision::Acquired));
    assert!(matches!(reserve(stored("in_progress", 7), &print), IdempotencyDecision::InProgress));
    assert!(matches!(
        reserve(stored("completed", 7), &print),
        IdempotencyDecision::Replay { resource_id: Some(5), .. }
    ));
    assert!(matches!(reserve(stored("completed", 8), &print), IdempotencyDecision::Conflict));
}

#[test]
fn an_answer_that_was_stored_stays() {
    let given = |id: u128| CompletedRequest {
        resource_type: Some("proposal".to_owned()),
        resource_id: Some(id),
        response: None,
    };
    let stored = |state: &str| {
        Some(StoredCompletion {
            request_fingerprint: vec![7; 32],
            state: state.to_owned(),
            resource_type: Some("proposal".to_owned()),
            resource_id: Some(5),
            response: None,
        })
    };
    let print = vec![7; 32];
    assert_eq!(complete(None, &print, &given(5)), Err(IdempotencyError::NotFound));
    assert_eq!(complete(stored("completed"), &print, &given(5)), Ok(false));
    assert_eq!(
        complete(stored("completed"), &print, &given(6)),
        Err(IdempotencyError::Conflict)
    );
    assert_eq!(complete(stored("in_progress"), &print, &given(5)), Ok(true));
    assert_eq!(
        complete(stored("in_progress"), &vec![8; 32], &given(5)),
        Err(IdempotencyError::Conflict)
    );
}

#[test]
fn a_key_stands_for_one_request() {
    let print = vec![7; 32];
    let row = reserved_row("key-12345", &print, NOON);
    assert_eq!(row.key_hash, hash_key("key-12345"));
    assert_eq!((row.request_fingerprint.clone(), row.expires_at), (print.clone(), NOON));
    assert!(row.answer.is_none());
    let reservation = |state: &str, resource_id: Option<u128>| {
        Some(StoredReservation {
            request_fingerprint: row.request_fingerprint.clone(),
            state: state.to_owned(),
            resource_id,
            response: None,
        })
    };
    let other = vec![8; 32];
    assert!(matches!(reserve(reservation("open", None), &print), IdempotencyDecision::InProgress));
    assert!(matches!(reserve(reservation("open", None), &other), IdempotencyDecision::Conflict));
    assert!(matches!(
        reserve(reservation("completed", Some(5)), &print),
        IdempotencyDecision::Replay { resource_id: Some(5), response: None }
    ));
    assert!(matches!(
        reserve(reservation("completed", Some(5)), &other),
        IdempotencyDecision::Conflict
    ));
}

fn message() -> NewOutboxMessage {
    NewOutboxMessage {
        aggregate_type: "proposal".to_owned(),
        aggregate_id: 5,
        aggregate_revision: Some(2),
        event_type: "proposal.accepted".to_owned(),
        deduplication_key: None,
        payload: Json::Object(Vec::new()),
        headers: Json::Object(Vec::new()),
        available_at: NOON,
    }
}

#[test]
fn messages_are_checked_before_they_are_sent() {
    assert!(validate_message(&message()).is_ok());
    for wrong in [
        NewOutboxMessage { aggregate_type: " ".to_owned(), ..message() },
        NewOutboxMessage { event_type: String::new(), ..message() },
        NewOutboxMessage { payload: Json::Null, ..message() },
        NewOutboxMessage { headers: Json::Array(Vec::new()), ..message() },
    ] {
        assert_eq!(validate_message(&wrong), Err(OutboxError::InvalidInput));
    }
    assert_eq!(message_revision(&message()), Ok(Some(2)));
    assert!(message_revision(&NewOutboxMessage {
        aggregate_revision: Some(u64::MAX),
        ..message()
    })
    .is_err());
    assert_eq!(map_insert_error(Some("23505")), OutboxError::Duplicate);
    assert_eq!(map_insert_error(None), OutboxError::Storage);
}

#[test]
fn messages_are_claimed_for_a_while() {
    assert_eq!(claim_at("worker-1", 10, 60 * SECOND, NOON), Ok(NOON - 60 * SECOND));
    assert!(claim_at("", 10, 60 * SECOND, NOON).is_err());
    assert!(claim_at("worker-1", 0, 60 * SECOND, NOON).is_err());
    assert!(claim_at("worker-1", 10, 0, NOON).is_err());
    assert!(claim_at("worker-1", 10, HOUR + 1, NOON).is_err());
    assert!(validate_worker("worker-1").is_ok());
    assert!(validate_failure_at("worker-1", "timeout", NOON + SECOND, NOON).is_ok());
    assert!(validate_failure_at("worker-1", "", NOON + SECOND, NOON).is_err());
    assert_eq!(check_lease(1), Ok(()));
    assert_eq!(check_lease(0), Err(OutboxError::LeaseLost));
}

#[test]
fn messages_are_read_back() {
    let row = |attempts: i32| OutboxRow {
        id: 1,
        aggregate_type: "proposal".to_owned(),
        aggregate_id: 5,
        aggregate_revision: Some(2),
        event_type: "proposal.accepted".to_owned(),
        payload: Json::Null,
        headers: Json::Null,
        attempts,
        available_at: NOON,
        claimed_by: None,
        claimed_at: None,
        created_at: NOON,
    };
    assert_eq!(message_from_row(row(3)).unwrap().attempts, 3);
    assert_eq!(message_from_row(row(-3)).unwrap_err(), OutboxError::Storage);
}

fn scope() -> DatabaseScope {
    DatabaseScope { workspace_id: 1, user_id: 2 }
}

fn open_state() -> AdmissionState {
    AdmissionState { closed_for: None, fenced: false, current_owner: true, registered: None }
}

#[test]
fn closed_scopes_admit_nothing() {
    assert_eq!(register(&open_state(), scope(), 7), Ok(true));
    for state in [
        AdmissionState { closed_for: Some(9), ..open_state() },
        AdmissionState { fenced: true, ..open_state() },
        AdmissionState { current_owner: false, ..open_state() },
    ] {
        assert!(register(&state, scope(), 7).is_err());
    }
    assert!(validate_ids(scope(), &vec![3]).is_ok());
    assert_eq!(
        validate_ids(scope(), &vec![0]),
        Err(ProviderAdmissionError::InvalidScope)
    );
}

#[test]
fn operations_are_settled_by_their_owner() {
    let owner = || Some(OperationOwner { workspace_id: 1, user_id: 2, runtime_id: 7 });
    assert_eq!(settle(&owner(), scope(), 7), Ok(true));
    assert_eq!(settle(&owner(), scope(), 8), Err(ProviderAdmissionError::WrongOperation));
    assert_eq!(settle(&None, scope(), 7), Ok(false));
    assert_eq!(
        register(&AdmissionState { registered: owner(), ..open_state() }, scope(), 7),
        Ok(false)
    );
}

#[test]
fn a_scope_is_closed_for_one_deletion() {
    assert_eq!(close(true, None, 4), Ok(true));
    assert_eq!(close(true, Some(4), 4), Ok(false));
    assert_eq!(close(true, Some(5), 4), Err(ProviderAdmissionError::ConflictingDeletion));
    assert!(close(false, None, 4).is_err());
    let drained = |no_operations: bool| {
        Some(DrainState { closed_for: Some(4), valid_deletion: true, no_operations })
    };
    assert_eq!(is_drained(&drained(true), 4), Ok(true));
    assert_eq!(is_drained(&drained(false), 4), Ok(false));
    assert!(is_drained(&drained(true), 5).is_err());
    let _: ProviderAdmissionError = map_error(None);
    let _: AccountDeletionRepositoryError = deletion_error(None);
}
