//! Why a review, an application or an undoing is refused, and how requests and stored
//! values are read.
use vstd::prelude::*;
use vstd::string::StringExecFns;

use crate::hashing::read_hash;
use crate::items::model::ItemRepositoryError;
use crate::outside::uuid_text;
use crate::proposals::application::{
    ProposalApplicationStatus, ProposalChangeSetError, ProposalConflictCode, ProposalOperation,
};
use crate::text::{decimal, same_text};
use crate::time::Uuid;

verus! {

/// Why a review, an application or an undoing is refused.
#[derive(Debug)]
pub enum ProposalApplicationError {
    Validation(String),
    NotFound,
    OwnerUnavailable,
    Stale(ProposalConflictCode),
    RevisionConflict { expected: u64, actual: u64 },
    IdempotencyConflict,
    Internal,
}

/// A refusal with the characters of its message.
pub ghost enum Refusal {
    Validation(Seq<char>),
    NotFound,
    OwnerUnavailable,
    Stale(ProposalConflictCode),
    RevisionConflict { expected: u64, actual: u64 },
    IdempotencyConflict,
    Internal,
}

impl View for ProposalApplicationError {
    type V = Refusal;

    open spec fn view(&self) -> Refusal {
        match *self {
            ProposalApplicationError::Validation(message) => Refusal::Validation(message@),
            ProposalApplicationError::NotFound => Refusal::NotFound,
            ProposalApplicationError::OwnerUnavailable => Refusal::OwnerUnavailable,
            ProposalApplicationError::Stale(code) => Refusal::Stale(code),
            ProposalApplicationError::RevisionConflict { expected, actual } => {
                Refusal::RevisionConflict { expected, actual }
            },
            ProposalApplicationError::IdempotencyConflict => Refusal::IdempotencyConflict,
            ProposalApplicationError::Internal => Refusal::Internal,
        }
    }
}

/// A request that is refused for its content.
pub fn validation(message: &str) -> (result: ProposalApplicationError)
    ensures
        result@ == Refusal::Validation(message@),
{
    ProposalApplicationError::Validation(message.to_owned())
}

/// Any failure of the storage is an internal error.
pub fn internal<T>(_error: T) -> (result: ProposalApplicationError)
    ensures
        result@ == Refusal::Internal,
{
    ProposalApplicationError::Internal
}

/// The message that tells why a change set is refused.
pub open spec fn change_set_message(error: ProposalChangeSetError) -> Seq<char> {
    match error {
        ProposalChangeSetError::InvalidPayload => {
            "payload does not match dayweave.proposal-change-set/1"@
        },
        ProposalChangeSetError::Empty => "proposal change set must contain at least one command"@,
        ProposalChangeSetError::TooManyCommands { maximum } => {
            "proposal change set exceeds the maximum of "@ + crate::text::decimal_text(
                maximum as nat,
            ) + " commands"@
        },
        ProposalChangeSetError::DuplicateCommandId(id) => {
            "proposal command id "@ + crate::outside::text_of_uuid(id) + " is duplicated"@
        },
        ProposalChangeSetError::DuplicateTargetId(id) => {
            "proposal target item id "@ + crate::outside::text_of_uuid(id) + " is duplicated"@
        },
        ProposalChangeSetError::ExpectedRevisionMustBePositive(id) => {
            "proposal command "@ + crate::outside::text_of_uuid(id)
                + " must use a positive expected revision"@
        },
    }
}

fn around(opening: &str, middle: &str, closing: &str) -> (result: String)
    ensures
        result@ == opening@ + middle@ + closing@,
{
    let mut text: String = opening.to_owned();
    text.append(middle);
    text.append(closing);
    text
}

/// The message that tells why a change set is refused.
pub fn change_set_error_message(error: ProposalChangeSetError) -> (result: String)
    ensures
        result@ == change_set_message(error),
{
    match error {
        ProposalChangeSetError::InvalidPayload => {
            "payload does not match dayweave.proposal-change-set/1".to_owned()
        },
        ProposalChangeSetError::Empty => {
            "proposal change set must contain at least one command".to_owned()
        },
        ProposalChangeSetError::TooManyCommands { maximum } => {
            let number: String = decimal(maximum as u64);
            around("proposal change set exceeds the maximum of ", number.as_str(), " commands")
        },
        ProposalChangeSetError::DuplicateCommandId(id) => {
            let text: String = uuid_text(id);
            around("proposal command id ", text.as_str(), " is duplicated")
        },
        ProposalChangeSetError::DuplicateTargetId(id) => {
            let text: String = uuid_text(id);
            around("proposal target item id ", text.as_str(), " is duplicated")
        },
        ProposalChangeSetError::ExpectedRevisionMustBePositive(id) => {
            let text: String = uuid_text(id);
            around("proposal command ", text.as_str(), " must use a positive expected revision")
        },
    }
}

/// Whether a byte may stand in the key of a request.
pub open spec fn key_byte(byte: u8) -> bool {
    ||| 0x30 <= byte <= 0x39
    ||| 0x41 <= byte <= 0x5a
    ||| 0x61 <= byte <= 0x7a
    ||| byte == 0x2d
    ||| byte == 0x5f
    ||| byte == 0x2e
    ||| byte == 0x7e
}

/// Whether a text is the key of a request: letters, digits and a few marks, neither
/// too few nor too many.
pub open spec fn request_key(key: Seq<char>) -> bool {
    let bytes = vstd::utf8::encode_utf8(key);
    &&& 8 <= bytes.len() <= 128
    &&& forall|k: int| 0 <= k < bytes.len() ==> key_byte(#[trigger] bytes[k])
}

/// Whether a text is the key of a request.
pub fn validate_idempotency_key(value: &str) -> (result: Result<(), ProposalApplicationError>)
    ensures
        match result {
            Ok(_) => request_key(value@),
            Err(error) => !request_key(value@) && error@ == Refusal::Validation(
                "Idempotency-Key must be 8-128 URL-safe ASCII characters"@,
            ),
        },
{
    let bytes: &[u8] = value.as_bytes();
    if bytes.len() < 8 || bytes.len() > 128 {
        return Err(validation("Idempotency-Key must be 8-128 URL-safe ASCII characters"));
    }
    let mut i: usize = 0;
    while i < bytes.len()
        invariant
            i <= bytes@.len(),
            bytes@ == vstd::utf8::encode_utf8(value@),
            forall|k: int| 0 <= k < i ==> key_byte(#[trigger] bytes@[k]),
        decreases bytes@.len() - i,
    {
        let byte: u8 = bytes[i];
        let allowed: bool = (0x30 <= byte && byte <= 0x39) || (0x41 <= byte && byte <= 0x5a) || (
        0x61 <= byte && byte <= 0x7a) || byte == 0x2d || byte == 0x5f || byte == 0x2e || byte
            == 0x7e;
        if !allowed {
            assert(!key_byte(bytes@[i as int]));
            return Err(validation("Idempotency-Key must be 8-128 URL-safe ASCII characters"));
        }
        i = i + 1;
    }
    Ok(())
}

/// The digest that a request names.
pub fn decode_hash(value: &str) -> (result: Result<[u8; 32], ProposalApplicationError>)
    ensures
        match result {
            Ok(hash) => crate::hashing::is_hash_text(value@) && forall|k: int|
                0 <= k < 32 ==> #[trigger] hash@[k] == crate::hashing::hash_text_byte(value@, k),
            Err(error) => !crate::hashing::is_hash_text(value@) && error@ == Refusal::Validation(
                "expected_review_hash is invalid"@,
            ),
        },
{
    match read_hash(value) {
        Some(hash) => Ok(hash),
        None => Err(validation("expected_review_hash is invalid")),
    }
}

/// The stored name of what a command does.
pub open spec fn operation_name_text(operation: ProposalOperation) -> Seq<char> {
    match operation {
        ProposalOperation::CreateItem => "create_item"@,
        ProposalOperation::ReplaceItem => "replace_item"@,
        ProposalOperation::TrashItem => "trash_item"@,
        ProposalOperation::RestoreItem => "restore_item"@,
    }
}

/// The stored name of what a command does.
pub fn operation_name(operation: ProposalOperation) -> (result: &'static str)
    ensures
        result@ == operation_name_text(operation),
{
    match operation {
        ProposalOperation::CreateItem => "create_item",
        ProposalOperation::ReplaceItem => "replace_item",
        ProposalOperation::TrashItem => "trash_item",
        ProposalOperation::RestoreItem => "restore_item",
    }
}

/// Reads what a command does from its stored name.
pub fn parse_operation(value: &str) -> (result: Result<ProposalOperation, ProposalApplicationError>)
    ensures
        match result {
            Ok(operation) => value@ == operation_name_text(operation),
            Err(error) => error@ == Refusal::Internal && forall|operation: ProposalOperation|
                value@ != #[trigger] operation_name_text(operation),
        },
{
    if same_text(value, "create_item") {
        Ok(ProposalOperation::CreateItem)
    } else if same_text(value, "replace_item") {
        Ok(ProposalOperation::ReplaceItem)
    } else if same_text(value, "trash_item") {
        Ok(ProposalOperation::TrashItem)
    } else if same_text(value, "restore_item") {
        Ok(ProposalOperation::RestoreItem)
    } else {
        Err(ProposalApplicationError::Internal)
    }
}

/// The stored names of what commands do tell them apart.
pub proof fn operation_names_differ(a: ProposalOperation, b: ProposalOperation)
    requires
        operation_name_text(a) == operation_name_text(b),
    ensures
        a == b,
{
    reveal_strlit("create_item");
    reveal_strlit("replace_item");
    reveal_strlit("trash_item");
    reveal_strlit("restore_item");
    assert("create_item"@[0] == 'c');
    assert("replace_item"@[2] == 'p');
    assert("trash_item"@[0] == 't');
    assert("restore_item"@[0] == 'r' && "restore_item"@[2] == 's');
    assert("replace_item"@[0] == 'r');
}

/// The stored name of whether an application stands.
pub open spec fn application_status_text(status: ProposalApplicationStatus) -> Seq<char> {
    match status {
        ProposalApplicationStatus::Applied => "applied"@,
        ProposalApplicationStatus::Undone => "undone"@,
    }
}

/// Reads whether an application stands from its stored name.
pub fn parse_application_status(value: &str) -> (result: Result<
    ProposalApplicationStatus,
    ProposalApplicationError,
>)
    ensures
        match result {
            Ok(status) => value@ == application_status_text(status),
            Err(error) => error@ == Refusal::Internal && forall|status: ProposalApplicationStatus|
                value@ != #[trigger] application_status_text(status),
        },
{
    if same_text(value, "applied") {
        Ok(ProposalApplicationStatus::Applied)
    } else if same_text(value, "undone") {
        Ok(ProposalApplicationStatus::Undone)
    } else {
        Err(ProposalApplicationError::Internal)
    }
}

/// A revision as the database stores it.
pub fn revision_i64(value: u64) -> (result: Result<i64, ProposalApplicationError>)
    ensures
        match result {
            Ok(stored) => stored == value,
            Err(error) => value > i64::MAX && error@ == Refusal::Internal,
        },
{
    match crate::numbers::signed(value) {
        Some(stored) => Ok(stored),
        None => Err(ProposalApplicationError::Internal),
    }
}

/// A revision from what the database stores.
pub fn revision_u64(value: i64) -> (result: Result<u64, ProposalApplicationError>)
    ensures
        match result {
            Ok(revision) => revision == value,
            Err(error) => value < 0 && error@ == Refusal::Internal,
        },
{
    match crate::numbers::unsigned(value) {
        Some(revision) => Ok(revision),
        None => Err(ProposalApplicationError::Internal),
    }
}

/// A count that is never zero, from what the database stores.
pub fn positive_usize(value: i32) -> (result: Result<usize, ProposalApplicationError>)
    ensures
        match result {
            Ok(count) => count == value && value > 0,
            Err(error) => value <= 0 && error@ == Refusal::Internal,
        },
{
    if value <= 0 {
        Err(ProposalApplicationError::Internal)
    } else {
        Ok(value as usize)
    }
}

/// A digest from the bytes that the database stores.
pub fn bytes32(value: Vec<u8>) -> (result: Result<[u8; 32], ProposalApplicationError>)
    ensures
        match result {
            Ok(hash) => hash@ == value@,
            Err(error) => value@.len() != 32 && error@ == Refusal::Internal,
        },
{
    if value.len() != 32 {
        return Err(ProposalApplicationError::Internal);
    }
    let mut hash: [u8; 32] = [0u8;32];
    let mut i: usize = 0;
    while i < 32
        invariant
            i <= 32,
            value@.len() == 32,
            hash@.len() == 32,
            forall|k: int| 0 <= k < i ==> hash@[k] == value@[k],
        decreases 32 - i,
    {
        hash[i] = value[i];
        i = i + 1;
    }
    assert(hash@ =~= value@);
    Ok(hash)
}

/// The refusal that an error of the item store stands for.
pub open spec fn item_refusal(error: ItemRepositoryError) -> Refusal {
    match error {
        ItemRepositoryError::RevisionConflict { expected, actual } => Refusal::RevisionConflict {
            expected,
            actual,
        },
        ItemRepositoryError::NotFound(_) => Refusal::NotFound,
        ItemRepositoryError::Duplicate(_) => Refusal::Stale(
            ProposalConflictCode::ItemAlreadyExists,
        ),
        ItemRepositoryError::ParentNotFound(_) => Refusal::Stale(
            ProposalConflictCode::ParentNotFound,
        ),
        ItemRepositoryError::HierarchyCycle | ItemRepositoryError::SelfParent => Refusal::Stale(
            ProposalConflictCode::HierarchyCycle,
        ),
        ItemRepositoryError::DependencyNotFound(_) => Refusal::Stale(
            ProposalConflictCode::DependencyNotFound,
        ),
        ItemRepositoryError::DependencyCycle => Refusal::Stale(
            ProposalConflictCode::DependencyCycle,
        ),
        ItemRepositoryError::InvalidParentState => Refusal::Stale(
            ProposalConflictCode::InvalidParentState,
        ),
        ItemRepositoryError::NonLeafExecutable => Refusal::Stale(
            ProposalConflictCode::NonLeafExecutable,
        ),
        ItemRepositoryError::ActiveExecutionConflict { .. } => Refusal::Stale(
            ProposalConflictCode::InvalidItem,
        ),
        ItemRepositoryError::CrossRecurringSubtreeDependency { .. } => Refusal::Stale(
            ProposalConflictCode::InvalidItem,
        ),
        ItemRepositoryError::InvalidItem => Refusal::Stale(ProposalConflictCode::InvalidItem),
        ItemRepositoryError::HasChildren => Refusal::Stale(ProposalConflictCode::HasChildren),
        ItemRepositoryError::DeletedParent => Refusal::Stale(ProposalConflictCode::DeletedParent),
        _ => Refusal::Internal,
    }
}

/// The refusal that an error of the item store stands for.
pub fn map_item_error(error: ItemRepositoryError) -> (result: ProposalApplicationError)
    ensures
        result@ == item_refusal(error),
{
    match error {
        ItemRepositoryError::RevisionConflict { expected, actual } => {
            ProposalApplicationError::RevisionConflict { expected, actual }
        },
        ItemRepositoryError::NotFound(_) => ProposalApplicationError::NotFound,
        ItemRepositoryError::Duplicate(_) => ProposalApplicationError::Stale(
            ProposalConflictCode::ItemAlreadyExists,
        ),
        ItemRepositoryError::ParentNotFound(_) => ProposalApplicationError::Stale(
            ProposalConflictCode::ParentNotFound,
        ),
        ItemRepositoryError::HierarchyCycle | ItemRepositoryError::SelfParent => {
            ProposalApplicationError::Stale(ProposalConflictCode::HierarchyCycle)
        },
        ItemRepositoryError::DependencyNotFound(_) => ProposalApplicationError::Stale(
            ProposalConflictCode::DependencyNotFound,
        ),
        ItemRepositoryError::DependencyCycle => ProposalApplicationError::Stale(
            ProposalConflictCode::DependencyCycle,
        ),
        ItemRepositoryError::InvalidParentState => ProposalApplicationError::Stale(
            ProposalConflictCode::InvalidParentState,
        ),
        ItemRepositoryError::NonLeafExecutable => ProposalApplicationError::Stale(
            ProposalConflictCode::NonLeafExecutable,
        ),
        ItemRepositoryError::ActiveExecutionConflict { .. }
        | ItemRepositoryError::CrossRecurringSubtreeDependency { .. }
        | ItemRepositoryError::InvalidItem => ProposalApplicationError::Stale(
            ProposalConflictCode::InvalidItem,
        ),
        ItemRepositoryError::HasChildren => ProposalApplicationError::Stale(
            ProposalConflictCode::HasChildren,
        ),
        ItemRepositoryError::DeletedParent => ProposalApplicationError::Stale(
            ProposalConflictCode::DeletedParent,
        ),
        _ => ProposalApplicationError::Internal,
    }
}

/// The code under which the database reports that a row exists already.
pub open spec fn unique_violation(code: Option<Seq<char>>) -> bool {
    code == Some("23505"@)
}

/// The codes under which the database reports that a row breaks a constraint.
pub open spec fn constraint_violation(code: Option<Seq<char>>) -> bool {
    code == Some("23503"@) || code == Some("23505"@) || code == Some("23514"@)
}

/// The characters of the code under which the database reports an error.
pub open spec fn code_text(code: Option<&str>) -> Option<Seq<char>> {
    match code {
        Some(text) => Some(text@),
        None => None,
    }
}

/// Whether the database reports that a row exists already.
pub fn is_unique_violation(code: Option<&str>) -> (result: bool)
    ensures
        result == unique_violation(code_text(code)),
{
    match code {
        Some(text) => same_text(text, "23505"),
        None => false,
    }
}

/// Whether the database reports that a row breaks a constraint.
pub fn is_constraint_error(code: Option<&str>) -> (result: bool)
    ensures
        result == constraint_violation(code_text(code)),
{
    match code {
        Some(text) => same_text(text, "23503") || same_text(text, "23505") || same_text(
            text,
            "23514",
        ),
        None => false,
    }
}

/// Why a review could not be stored: a proposal that it is about has changed.
pub fn map_preview_insert_error(code: Option<&str>) -> (result: ProposalApplicationError)
    ensures
        result@ == (if constraint_violation(code_text(code)) {
            Refusal::Stale(ProposalConflictCode::ProposalRevisionMismatch)
        } else {
            Refusal::Internal
        }),
{
    if is_constraint_error(code) {
        ProposalApplicationError::Stale(ProposalConflictCode::ProposalRevisionMismatch)
    } else {
        ProposalApplicationError::Internal
    }
}

/// Why an application could not be stored: the review was applied already.
pub fn map_application_insert_error(code: Option<&str>) -> (result: ProposalApplicationError)
    ensures
        result@ == (if unique_violation(code_text(code)) {
            Refusal::Stale(ProposalConflictCode::AlreadyApplied)
        } else {
            Refusal::Internal
        }),
{
    if is_unique_violation(code) {
        ProposalApplicationError::Stale(ProposalConflictCode::AlreadyApplied)
    } else {
        ProposalApplicationError::Internal
    }
}

/// Why a request could not be stored: its key was used already.
pub fn map_request_insert_error(code: Option<&str>) -> (result: ProposalApplicationError)
    ensures
        result@ == (if unique_violation(code_text(code)) {
            Refusal::IdempotencyConflict
        } else {
            Refusal::Internal
        }),
{
    if is_unique_violation(code) {
        ProposalApplicationError::IdempotencyConflict
    } else {
        ProposalApplicationError::Internal
    }
}

/// Whether the member that a request acts for owns the workspace. `active` is whether
/// the member has that role and was not removed, if there is such a member.
pub fn check_owner(active: Option<bool>) -> (result: Result<(), ProposalApplicationError>)
    ensures
        match result {
            Ok(_) => active == Some(true),
            Err(error) => active != Some(true) && error@ == Refusal::OwnerUnavailable,
        },
{
    match active {
        Some(true) => Ok(()),
        _ => Err(ProposalApplicationError::OwnerUnavailable),
    }
}

/// What is stored of a request of the same operation and key.
#[derive(Debug)]
pub struct RequestRow {
    pub request_hash: Vec<u8>,
    pub application_id: Uuid,
}

/// What is stored of a request, so that it is answered the same way when it is made again.
pub fn request_row(request_hash: &[u8; 32], application_id: Uuid) -> (result: RequestRow)
    ensures
        result.request_hash@ == request_hash@,
        result.application_id == application_id,
{
    let mut bytes: Vec<u8> = Vec::new();
    let mut i: usize = 0;
    while i < 32
        invariant
            i <= 32,
            bytes@ == request_hash@.take(i as int),
        decreases 32 - i,
    {
        bytes.push(request_hash[i]);
        i = i + 1;
        assert(bytes@ =~= request_hash@.take(i as int));
    }
    assert(request_hash@.take(i as int) =~= request_hash@);
    RequestRow { request_hash: bytes, application_id }
}

/// The application that a request led to before, if it was made before, or why its key cannot
/// be used.
pub open spec fn replayed_application(row: Option<RequestRow>, request_hash: Seq<u8>) -> Result<
    Option<Uuid>,
    Refusal,
> {
    match row {
        None => Ok(None),
        Some(row) => if row.request_hash@ == request_hash {
            Ok(Some(row.application_id))
        } else if row.request_hash@.len() == 32 {
            Err(Refusal::IdempotencyConflict)
        } else {
            Err(Refusal::Internal)
        },
    }
}

/// The application that a request led to before, if it was made before. A key that was
/// used for another request is refused.
pub fn replay_request(row: Option<RequestRow>, request_hash: &[u8; 32]) -> (result: Result<
    Option<Uuid>,
    ProposalApplicationError,
>)
    ensures
        match result {
            Ok(application_id) => replayed_application(row, request_hash@) == Ok::<
                Option<Uuid>,
                Refusal,
            >(application_id),
            Err(error) => replayed_application(row, request_hash@) == Err::<Option<Uuid>, Refusal>(
                error@,
            ),
        },
{
    match row {
        None => Ok(None),
        Some(row) => {
            let stored: [u8; 32] = bytes32(row.request_hash)?;
            if crate::hashing::same_hash(&stored, request_hash) {
                Ok(Some(row.application_id))
            } else {
                Err(ProposalApplicationError::IdempotencyConflict)
            }
        },
    }
}

} // verus!
