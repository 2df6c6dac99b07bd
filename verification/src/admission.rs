//! The registry of operations with outside providers: what runs is registered, and an
//! account is deleted only after everything that runs has settled.
use vstd::prelude::*;

use crate::text::same_text;
use crate::time::{DatabaseScope, Uuid};

verus! {

/// Why an operation on the registry is refused.
#[derive(Clone, Copy, Debug, PartialEq, Eq, Structural)]
pub enum ProviderAdmissionError {
    InvalidScope,
    Closed,
    WrongOperation,
    ConflictingDeletion,
    Unavailable,
}

/// Why a step of the deletion of an account is refused.
#[derive(Clone, Copy, Debug, PartialEq, Eq, Structural)]
pub enum AccountDeletionRepositoryError {
    Conflict,
    InvalidAuthority,
    ProviderCleanupBlocked,
    Internal,
}

/// Whether a scope and identifiers are real ones.
pub open spec fn ids_valid(scope: DatabaseScope, ids: Seq<Uuid>) -> bool {
    &&& scope.workspace_id != 0
    &&& scope.user_id != 0
    &&& forall|k: int| 0 <= k < ids.len() ==> #[trigger] ids[k] != 0
}

/// Whether a scope and identifiers are real ones.
pub fn validate_ids(scope: DatabaseScope, ids: &Vec<Uuid>) -> (result: Result<
    (),
    ProviderAdmissionError,
>)
    ensures
        result == (if ids_valid(scope, ids@) {
            Ok::<(), ProviderAdmissionError>(())
        } else {
            Err(ProviderAdmissionError::InvalidScope)
        }),
{
    if scope.workspace_id == 0 || scope.user_id == 0 {
        return Err(ProviderAdmissionError::InvalidScope);
    }
    let mut i: usize = 0;
    while i < ids.len()
        invariant
            i <= ids.len(),
            scope.workspace_id != 0,
            scope.user_id != 0,
            forall|k: int| 0 <= k < i ==> #[trigger] ids@[k] != 0,
        decreases ids.len() - i,
    {
        if ids[i] == 0 {
            assert(ids@[i as int] == 0);
            return Err(ProviderAdmissionError::InvalidScope);
        }
        i = i + 1;
    }
    Ok(())
}

/// Whom a registered operation belongs to.
#[derive(Clone, Copy, Debug, PartialEq, Eq, Structural)]
pub struct OperationOwner {
    pub workspace_id: Uuid,
    pub user_id: Uuid,
    pub runtime_id: Uuid,
}

/// Whether a registered operation belongs to a runtime of a scope.
pub open spec fn owned(owner: OperationOwner, scope: DatabaseScope, runtime_id: Uuid) -> bool {
    owner.workspace_id == scope.workspace_id && owner.user_id == scope.user_id && owner.runtime_id
        == runtime_id
}

/// Whether a registered operation belongs to a runtime of a scope.
pub fn matches_owner(owner: &OperationOwner, scope: DatabaseScope, runtime_id: Uuid) -> (result:
    bool)
    ensures
        result == owned(*owner, scope, runtime_id),
{
    owner.workspace_id == scope.workspace_id && owner.user_id == scope.user_id && owner.runtime_id
        == runtime_id
}

/// What is stored about a scope that wants to run an operation.
#[derive(Clone, Copy, Debug, PartialEq, Eq, Structural)]
pub struct AdmissionState {
    /// The deletion that the scope is closed for.
    pub closed_for: Option<Uuid>,
    /// Whether the workspace or the user is fenced off, or closed under another scope.
    pub fenced: bool,
    /// Whether the user owns the workspace.
    pub current_owner: bool,
    /// The owner of the operation, if it is registered.
    pub registered: Option<OperationOwner>,
}

/// Whether an operation is to be written into the registry: `Ok(false)` if it is there.
pub open spec fn registration(
    state: AdmissionState,
    scope: DatabaseScope,
    runtime_id: Uuid,
) -> Result<bool, ProviderAdmissionError> {
    if state.closed_for is Some || state.fenced {
        Err(ProviderAdmissionError::Closed)
    } else if !state.current_owner {
        Err(ProviderAdmissionError::InvalidScope)
    } else {
        match state.registered {
            None => Ok(true),
            Some(owner) => if owned(owner, scope, runtime_id) {
                Ok(false)
            } else {
                Err(ProviderAdmissionError::WrongOperation)
            },
        }
    }
}

/// Whether an operation is to be written into the registry.
pub fn register(state: &AdmissionState, scope: DatabaseScope, runtime_id: Uuid) -> (result: Result<
    bool,
    ProviderAdmissionError,
>)
    ensures
        result == registration(*state, scope, runtime_id),
{
    if state.closed_for.is_some() {
        return Err(ProviderAdmissionError::Closed);
    }
    if state.fenced {
        return Err(ProviderAdmissionError::Closed);
    }
    if !state.current_owner {
        return Err(ProviderAdmissionError::InvalidScope);
    }
    match &state.registered {
        None => Ok(true),
        Some(owner) => if matches_owner(owner, scope, runtime_id) {
            Ok(false)
        } else {
            Err(ProviderAdmissionError::WrongOperation)
        },
    }
}

/// Whether an operation is to be removed from the registry: `Ok(false)` if it is not
/// there, because it was settled before.
pub open spec fn settlement(
    registered: Option<OperationOwner>,
    scope: DatabaseScope,
    runtime_id: Uuid,
) -> Result<bool, ProviderAdmissionError> {
    match registered {
        None => Ok(false),
        Some(owner) => if owned(owner, scope, runtime_id) {
            Ok(true)
        } else {
            Err(ProviderAdmissionError::WrongOperation)
        },
    }
}

/// Whether an operation is to be removed from the registry.
pub fn settle(registered: &Option<OperationOwner>, scope: DatabaseScope, runtime_id: Uuid) -> (result:
    Result<bool, ProviderAdmissionError>)
    ensures
        result == settlement(*registered, scope, runtime_id),
{
    match registered {
        None => Ok(false),
        Some(owner) => if matches_owner(owner, scope, runtime_id) {
            Ok(true)
        } else {
            Err(ProviderAdmissionError::WrongOperation)
        },
    }
}

/// Whether a scope is to be marked as closed for a deletion: `Ok(false)` if it is.
pub open spec fn closing(valid_deletion: bool, closed_for: Option<Uuid>, deletion_id: Uuid) -> Result<
    bool,
    ProviderAdmissionError,
> {
    if !valid_deletion {
        Err(ProviderAdmissionError::ConflictingDeletion)
    } else {
        match closed_for {
            None => Ok(true),
            Some(existing) => if existing == deletion_id {
                Ok(false)
            } else {
                Err(ProviderAdmissionError::ConflictingDeletion)
            },
        }
    }
}

/// Whether a scope is to be marked as closed for a deletion.
pub fn close(valid_deletion: bool, closed_for: Option<Uuid>, deletion_id: Uuid) -> (result: Result<
    bool,
    ProviderAdmissionError,
>)
    ensures
        result == closing(valid_deletion, closed_for, deletion_id),
{
    if !valid_deletion {
        return Err(ProviderAdmissionError::ConflictingDeletion);
    }
    match closed_for {
        None => Ok(true),
        Some(existing) => if existing == deletion_id {
            Ok(false)
        } else {
            Err(ProviderAdmissionError::ConflictingDeletion)
        },
    }
}

/// What is stored about a scope that is to be drained.
#[derive(Clone, Copy, Debug, PartialEq, Eq, Structural)]
pub struct DrainState {
    pub closed_for: Option<Uuid>,
    pub valid_deletion: bool,
    /// Whether no operation of the workspace or of the user is registered.
    pub no_operations: bool,
}

/// Whether a scope is closed for a deletion and nothing runs in it any more.
pub open spec fn drainage(state: Option<DrainState>, deletion_id: Uuid) -> Result<
    bool,
    ProviderAdmissionError,
> {
    match state {
        None => Ok(false),
        Some(state) => if (state.closed_for is Some && state.closed_for->0 != deletion_id)
            || !state.valid_deletion {
            Err(ProviderAdmissionError::ConflictingDeletion)
        } else {
            Ok(state.closed_for == Some(deletion_id) && state.no_operations)
        },
    }
}

/// Whether a scope is closed for a deletion and nothing runs in it any more.
pub fn is_drained(state: &Option<DrainState>, deletion_id: Uuid) -> (result: Result<
    bool,
    ProviderAdmissionError,
>)
    ensures
        result == drainage(*state, deletion_id),
{
    match state {
        None => Ok(false),
        Some(state) => {
            let other: bool = match state.closed_for {
                Some(closed) => closed != deletion_id,
                None => false,
            };
            if other || !state.valid_deletion {
                return Err(ProviderAdmissionError::ConflictingDeletion);
            }
            Ok(state.closed_for == Some(deletion_id) && state.no_operations)
        },
    }
}

/// Whether a scope is closed for a deletion, while nobody else can change that. A scope
/// that is closed for another one is a conflict.
pub fn lock_provider_admission_for_deletion(closed: bool, conflicting: bool) -> (result: Result<
    bool,
    AccountDeletionRepositoryError,
>)
    ensures
        result == (if conflicting {
            Err::<bool, AccountDeletionRepositoryError>(AccountDeletionRepositoryError::Conflict)
        } else {
            Ok(closed)
        }),
{
    if conflicting {
        Err(AccountDeletionRepositoryError::Conflict)
    } else {
        Ok(closed)
    }
}

/// Whether a scope is to be closed for a deletion: nothing may run in it.
pub fn close_provider_admission_for_deletion(closed: bool, conflicting: bool, unsettled: bool) -> (result:
    Result<bool, AccountDeletionRepositoryError>)
    ensures
        result == (if conflicting {
            Err::<bool, AccountDeletionRepositoryError>(AccountDeletionRepositoryError::Conflict)
        } else if unsettled {
            Err(AccountDeletionRepositoryError::ProviderCleanupBlocked)
        } else {
            Ok(!closed)
        }),
{
    let closed: bool = lock_provider_admission_for_deletion(closed, conflicting)?;
    if unsettled {
        return Err(AccountDeletionRepositoryError::ProviderCleanupBlocked);
    }
    Ok(!closed)
}

/// Whether the scope was still open to be closed. `changed` is how many rows were.
pub fn check_closed(changed: u64) -> (result: Result<(), AccountDeletionRepositoryError>)
    ensures
        result == (if changed == 1 {
            Ok::<(), AccountDeletionRepositoryError>(())
        } else {
            Err(AccountDeletionRepositoryError::Conflict)
        }),
{
    if changed == 1 {
        Ok(())
    } else {
        Err(AccountDeletionRepositoryError::Conflict)
    }
}

/// Whether an account can be fenced off: its scope must be drained.
pub fn ensure_provider_admission_drained(drained: bool) -> (result: Result<
    (),
    AccountDeletionRepositoryError,
>)
    ensures
        result == (if drained {
            Ok::<(), AccountDeletionRepositoryError>(())
        } else {
            Err(AccountDeletionRepositoryError::ProviderCleanupBlocked)
        }),
{
    if drained {
        Ok(())
    } else {
        Err(AccountDeletionRepositoryError::ProviderCleanupBlocked)
    }
}

/// The refusal that a code of the database stands for.
pub open spec fn admission_error(code: Option<Seq<char>>) -> ProviderAdmissionError {
    match code {
        None => ProviderAdmissionError::Unavailable,
        Some(text) => if text == "DWADM"@ || text == "DWDEL"@ {
            ProviderAdmissionError::Closed
        } else if text == "DWSCP"@ {
            ProviderAdmissionError::InvalidScope
        } else if text == "DWOPR"@ || text == "23505"@ {
            ProviderAdmissionError::WrongOperation
        } else if text == "DWCON"@ {
            ProviderAdmissionError::ConflictingDeletion
        } else {
            ProviderAdmissionError::Unavailable
        },
    }
}

/// The refusal that a code of the database stands for.
pub fn map_error(code: Option<&str>) -> (result: ProviderAdmissionError)
    ensures
        result == admission_error(crate::review::errors::code_text(code)),
{
    match code {
        None => ProviderAdmissionError::Unavailable,
        Some(text) => if same_text(text, "DWADM") || same_text(text, "DWDEL") {
            ProviderAdmissionError::Closed
        } else if same_text(text, "DWSCP") {
            ProviderAdmissionError::InvalidScope
        } else if same_text(text, "DWOPR") || same_text(text, "23505") {
            ProviderAdmissionError::WrongOperation
        } else if same_text(text, "DWCON") {
            ProviderAdmissionError::ConflictingDeletion
        } else {
            ProviderAdmissionError::Unavailable
        },
    }
}

/// The refusal of a deletion that a code of the database stands for.
pub fn deletion_error(code: Option<&str>) -> (result: AccountDeletionRepositoryError)
    ensures
        result == match admission_error(crate::review::errors::code_text(code)) {
            ProviderAdmissionError::Closed => AccountDeletionRepositoryError::Conflict,
            ProviderAdmissionError::ConflictingDeletion => AccountDeletionRepositoryError::Conflict,
            ProviderAdmissionError::InvalidScope => {
                AccountDeletionRepositoryError::InvalidAuthority
            },
            _ => AccountDeletionRepositoryError::Internal,
        },
{
    match map_error(code) {
        ProviderAdmissionError::Closed | ProviderAdmissionError::ConflictingDeletion => {
            AccountDeletionRepositoryError::Conflict
        },
        ProviderAdmissionError::InvalidScope => AccountDeletionRepositoryError::InvalidAuthority,
        _ => AccountDeletionRepositoryError::Internal,
    }
}

/// The registry of one scope, as far as its operations go.
pub ghost struct Registry {
    /// The deletion that the scope is closed for.
    pub closed_for: Option<Uuid>,
    /// The registered operations, and the runtimes that run them.
    pub operations: Map<Uuid, Uuid>,
}

/// The registered owner of an operation.
pub open spec fn owner_in(registry: Registry, scope: DatabaseScope, operation_id: Uuid) -> Option<
    OperationOwner,
> {
    if registry.operations.contains_key(operation_id) {
        Some(
            OperationOwner {
                workspace_id: scope.workspace_id,
                user_id: scope.user_id,
                runtime_id: registry.operations[operation_id],
            },
        )
    } else {
        None
    }
}

/// The registry after an operation asked to be registered.
pub open spec fn after_register(
    registry: Registry,
    scope: DatabaseScope,
    state: AdmissionState,
    runtime_id: Uuid,
    operation_id: Uuid,
) -> Registry {
    if registration(state, scope, runtime_id) == Ok::<bool, ProviderAdmissionError>(true) {
        Registry { operations: registry.operations.insert(operation_id, runtime_id), ..registry }
    } else {
        registry
    }
}

/// The registry after a runtime settled an operation.
pub open spec fn after_settle(
    registry: Registry,
    scope: DatabaseScope,
    runtime_id: Uuid,
    operation_id: Uuid,
) -> Registry {
    if settlement(owner_in(registry, scope, operation_id), scope, runtime_id) == Ok::<
        bool,
        ProviderAdmissionError,
    >(true) {
        Registry { operations: registry.operations.remove(operation_id), ..registry }
    } else {
        registry
    }
}

/// Once a scope is closed nothing is admitted to it any more: whatever asks to be
/// registered is refused, and the registry stays as it is. So a drained scope stays
/// drained.
pub proof fn closed_scope_admits_nothing(
    registry: Registry,
    scope: DatabaseScope,
    state: AdmissionState,
    runtime_id: Uuid,
    operation_id: Uuid,
)
    requires
        registry.closed_for is Some,
        state.closed_for == registry.closed_for,
    ensures
        registration(state, scope, runtime_id) == Err::<bool, ProviderAdmissionError>(
            ProviderAdmissionError::Closed,
        ),
        after_register(registry, scope, state, runtime_id, operation_id) == registry,
{
}

/// An operation that was registered and settled by the same runtime leaves no trace, and
/// settling it once more is accepted and changes nothing.
pub proof fn settled_operation_leaves_no_trace(
    registry: Registry,
    scope: DatabaseScope,
    state: AdmissionState,
    runtime_id: Uuid,
    operation_id: Uuid,
)
    requires
        !registry.operations.contains_key(operation_id),
        state.registered == owner_in(registry, scope, operation_id),
        registration(state, scope, runtime_id) is Ok,
    ensures
        ({
            let registered = after_register(registry, scope, state, runtime_id, operation_id);
            let settled = after_settle(registered, scope, runtime_id, operation_id);
            &&& registered.operations.contains_key(operation_id)
            &&& settled == registry
            &&& settlement(owner_in(settled, scope, operation_id), scope, runtime_id) == Ok::<
                bool,
                ProviderAdmissionError,
            >(false)
        }),
{
    let registered = after_register(registry, scope, state, runtime_id, operation_id);
    let settled = after_settle(registered, scope, runtime_id, operation_id);
    assert(settled.operations =~= registry.operations);
}

/// No runtime settles the operation of another one.
pub proof fn only_the_owner_settles(
    registry: Registry,
    scope: DatabaseScope,
    runtime_id: Uuid,
    operation_id: Uuid,
)
    requires
        registry.operations.contains_key(operation_id),
        registry.operations[operation_id] != runtime_id,
    ensures
        settlement(owner_in(registry, scope, operation_id), scope, runtime_id) == Err::<
            bool,
            ProviderAdmissionError,
        >(ProviderAdmissionError::WrongOperation),
        after_settle(registry, scope, runtime_id, operation_id) == registry,
{
}

} // verus!
