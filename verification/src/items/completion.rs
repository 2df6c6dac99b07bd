//! The completion of items: stored states, the groups in which completions are
//! delivered, and what bringing back a former state does to them.
use std::collections::BTreeMap;

use vstd::prelude::*;

use crate::hashing::{encoded_hash, hash_bytes};
use crate::ids::holds_id;
use crate::items::deltas::{ChangeGroupLimits, PREVIEW_ITEM_CHANGE_ROW_RESERVE_BYTES};
use crate::items::model::{same_optional_json, Item, ItemRepositoryError, ItemStatus};
use crate::items::storage::active_execution;
use crate::json::Json;
use crate::time::{truncate_to_micros, Instant, Uuid};

verus! {

/// Why an operation on completions is refused.
#[derive(Clone, Copy, Debug, PartialEq, Eq, Structural)]
pub enum ItemCompletionError {
    Invalid,
    ItemMissing,
    OperationReused,
    ParentRequired,
    OccurrenceEvidenceRequired,
    ReopeningReviewRequired,
    TooLarge,
    Unavailable,
}

/// Any failure of the storage makes completions unavailable.
pub fn storage<T>(_error: T) -> (result: ItemCompletionError)
    ensures
        result == ItemCompletionError::Unavailable,
{
    ItemCompletionError::Unavailable
}

/// A revision as the database stores it.
pub fn revision(value: u64) -> (result: Result<i64, ItemCompletionError>)
    ensures
        match result {
            Ok(stored) => stored == value,
            Err(error) => value > i64::MAX && error == ItemCompletionError::Unavailable,
        },
{
    match crate::numbers::signed(value) {
        Some(stored) => Ok(stored),
        None => Err(ItemCompletionError::Unavailable),
    }
}

/// A number that is not negative, from what the database stores.
pub fn unsigned(value: i64) -> (result: Result<u64, ItemCompletionError>)
    ensures
        match result {
            Ok(number) => number == value,
            Err(error) => value < 0 && error == ItemCompletionError::Unavailable,
        },
{
    match crate::numbers::unsigned(value) {
        Some(number) => Ok(number),
        None => Err(ItemCompletionError::Unavailable),
    }
}

/// The error of the item store that a refusal stands for.
pub fn completion_error(error: ItemCompletionError) -> (result: ItemRepositoryError)
    ensures
        result == match error {
            ItemCompletionError::TooLarge => ItemRepositoryError::DeltaGroupTooLarge,
            ItemCompletionError::ReopeningReviewRequired => ItemRepositoryError::InvalidParentState,
            ItemCompletionError::ParentRequired => ItemRepositoryError::InvalidParentState,
            ItemCompletionError::OccurrenceEvidenceRequired => {
                ItemRepositoryError::InvalidParentState
            },
            _ => ItemRepositoryError::Internal,
        },
{
    match error {
        ItemCompletionError::TooLarge => ItemRepositoryError::DeltaGroupTooLarge,
        ItemCompletionError::ReopeningReviewRequired
        | ItemCompletionError::ParentRequired
        | ItemCompletionError::OccurrenceEvidenceRequired => ItemRepositoryError::InvalidParentState,
        _ => ItemRepositoryError::Internal,
    }
}

/// The refusal that an error of the item store stands for.
pub fn item_error(error: ItemRepositoryError) -> (result: ItemCompletionError)
    ensures
        result == (if error == ItemRepositoryError::DeltaGroupTooLarge {
            ItemCompletionError::TooLarge
        } else {
            ItemCompletionError::Unavailable
        }),
{
    match error {
        ItemRepositoryError::DeltaGroupTooLarge => ItemCompletionError::TooLarge,
        _ => ItemCompletionError::Unavailable,
    }
}

/// Whether a completion is stored for good, or only tried out.
#[derive(Clone, Copy, Debug, PartialEq, Eq, Structural)]
pub enum CompletionDeliveryMode {
    Committed,
    Preview,
}

/// What is known of the completion of an item.
#[derive(Debug)]
pub struct ItemCompletionState {
    pub item_id: Uuid,
    /// The revision of the state; zero where none was recorded.
    pub revision: u64,
    /// Whether the item completes with its children.
    pub automatic: bool,
    pub required_for_parent: bool,
    /// What completed the item, if it was completed under these rules.
    pub provenance: Option<Json>,
    pub updated_at: Option<Instant>,
    /// The rest of the state, such as what the item goes back to when it is reopened.
    pub details: Json,
}

/// Whether two states agree in every field.
pub open spec fn state_same(a: ItemCompletionState, b: ItemCompletionState) -> bool {
    &&& a.item_id == b.item_id
    &&& a.revision == b.revision
    &&& a.automatic == b.automatic
    &&& a.required_for_parent == b.required_for_parent
    &&& crate::json::optional_json_same(a.provenance, b.provenance)
    &&& a.updated_at == b.updated_at
    &&& crate::json::json_same(a.details, b.details)
}

impl ItemCompletionState {
    /// Whether `self` and `other` agree in every field.
    pub fn same(&self, other: &ItemCompletionState) -> (result: bool)
        ensures
            result == state_same(*self, *other),
    {
        self.item_id == other.item_id && self.revision == other.revision && self.automatic
            == other.automatic && self.required_for_parent == other.required_for_parent
            && same_optional_json(&self.provenance, &other.provenance) && self.updated_at
            == other.updated_at && self.details.same(&other.details)
    }
}

/// Whether an item is completed under these rules. `valid` is whether the state is one
/// that these rules allow.
pub fn has_qualified_completion(
    item: &Item,
    state: Option<&ItemCompletionState>,
    valid: bool,
) -> (result: bool)
    ensures
        result == (item.status == ItemStatus::Completed && state is Some && state->0.item_id
            == item.id && valid && state->0.provenance is Some),
{
    item.status == ItemStatus::Completed && match state {
        Some(state) => state.item_id == item.id && valid && state.provenance.is_some(),
        None => false,
    }
}

/// A state as it is stored.
#[derive(Debug)]
pub enum StoredCompletionState {
    Absent,
    /// The state cannot be read, or is none that these rules allow.
    Unsound,
    State(ItemCompletionState),
}

/// Whether an item with a state is completed under these rules.
pub fn is_qualified(item_id: Uuid, state: &StoredCompletionState) -> (result: Result<
    bool,
    ItemCompletionError,
>)
    ensures
        result == match *state {
            StoredCompletionState::Absent => Ok::<bool, ItemCompletionError>(false),
            StoredCompletionState::Unsound => Err(ItemCompletionError::Unavailable),
            StoredCompletionState::State(state) => Ok(
                state.item_id == item_id && state.provenance is Some,
            ),
        },
{
    match state {
        StoredCompletionState::Absent => Ok(false),
        StoredCompletionState::Unsound => Err(ItemCompletionError::Unavailable),
        StoredCompletionState::State(state) => Ok(
            state.item_id == item_id && state.provenance.is_some(),
        ),
    }
}

/// Whether the status of an item may be changed without regard to its completion: not
/// where the item is completed, or completes, under these rules.
pub fn ensure_legacy_completion_transition(
    current: ItemStatus,
    replacement: ItemStatus,
    state: &StoredCompletionState,
) -> (result: Result<(), ItemCompletionError>)
    ensures
        result == (if current == replacement {
            Ok::<(), ItemCompletionError>(())
        } else {
            match *state {
                StoredCompletionState::Absent => Ok(()),
                StoredCompletionState::Unsound => Err(ItemCompletionError::Unavailable),
                StoredCompletionState::State(state) => if !state.automatic || state.provenance
                    is Some {
                    Err(ItemCompletionError::ReopeningReviewRequired)
                } else {
                    Ok(())
                },
            }
        }),
{
    if current == replacement {
        return Ok(());
    }
    match state {
        StoredCompletionState::Absent => Ok(()),
        StoredCompletionState::Unsound => Err(ItemCompletionError::Unavailable),
        StoredCompletionState::State(state) => {
            if !state.automatic || state.provenance.is_some() {
                Err(ItemCompletionError::ReopeningReviewRequired)
            } else {
                Ok(())
            }
        },
    }
}

/// The columns of a state.
#[derive(Debug)]
pub struct CompletionStateRow {
    pub item_id: Uuid,
    pub revision: i64,
    pub updated_at: Instant,
    /// The state, if it can be read and these rules allow it.
    pub state: Option<ItemCompletionState>,
}

/// Whether the columns hold the state that they say.
pub open spec fn state_row_sound(row: CompletionStateRow) -> bool {
    row.state matches Some(state) && row.revision >= 0 && state.item_id == row.item_id
        && state.revision == row.revision && state.updated_at == Some(row.updated_at)
}

/// Reads a state.
pub fn completion_state_from_row(row: CompletionStateRow) -> (result: Result<
    ItemCompletionState,
    ItemCompletionError,
>)
    ensures
        match result {
            Ok(state) => state_row_sound(row) && row.state == Some(state),
            Err(error) => !state_row_sound(row) && error == ItemCompletionError::Unavailable,
        },
{
    let revision: u64 = unsigned(row.revision)?;
    match row.state {
        Some(state) => {
            if state.item_id != row.item_id || state.revision != revision || state.updated_at
                != Some(row.updated_at) {
                Err(ItemCompletionError::Unavailable)
            } else {
                Ok(state)
            }
        },
        None => Err(ItemCompletionError::Unavailable),
    }
}

/// The state that is stored for an item: the last one in the order of the rows.
pub open spec fn stored_state_of(rows: Seq<CompletionStateRow>, id: Uuid, count: nat) -> Option<
    ItemCompletionState,
>
    decreases count,
{
    if count == 0 {
        None
    } else if rows[count - 1].item_id == id {
        rows[count - 1].state
    } else {
        stored_state_of(rows, id, (count - 1) as nat)
    }
}

/// The states of items: the stored one of each that has one, and otherwise the one of no
/// record, as given in `empty`. It is an error if a row does not hold the state that it
/// says.
pub fn load_completion_states(
    empty: BTreeMap<Uuid, ItemCompletionState>,
    rows: Vec<CompletionStateRow>,
) -> (result: Result<BTreeMap<Uuid, ItemCompletionState>, ItemCompletionError>)
    ensures
        match result {
            Ok(states) => {
                &&& forall|k: int| 0 <= k < rows@.len() ==> state_row_sound(#[trigger] rows@[k])
                &&& forall|id: Uuid| #[trigger]
                    states@.contains_key(id) <==> (empty@.contains_key(id) || stored_state_of(
                        rows@,
                        id,
                        rows@.len(),
                    ) is Some)
                &&& forall|id: Uuid| #[trigger]
                    states@.contains_key(id) ==> states@[id] == match stored_state_of(
                        rows@,
                        id,
                        rows@.len(),
                    ) {
                        Some(state) => state,
                        None => empty@[id],
                    }
            },
            Err(error) => error == ItemCompletionError::Unavailable && exists|k: int|
                0 <= k < rows@.len() && !state_row_sound(#[trigger] rows@[k]),
        },
{
    let ghost none = empty@;
    let ghost all = rows@;
    let count: usize = rows.len();
    let mut remaining: Vec<CompletionStateRow> = rows;
    let mut states: BTreeMap<Uuid, ItemCompletionState> = empty;
    let mut i: usize = 0;
    while i < count
        invariant
            i <= count,
            count == all.len(),
            rows@ == all,
            empty@ == none,
            remaining@ == all.skip(i as int),
            forall|k: int| 0 <= k < i ==> state_row_sound(#[trigger] all[k]),
            forall|id: Uuid| #[trigger]
                states@.contains_key(id) <==> (none.contains_key(id) || stored_state_of(
                    all,
                    id,
                    i as nat,
                ) is Some),
            forall|id: Uuid| #[trigger]
                states@.contains_key(id) ==> states@[id] == match stored_state_of(
                    all,
                    id,
                    i as nat,
                ) {
                    Some(state) => state,
                    None => none[id],
                },
        decreases count - i,
    {
        let row: CompletionStateRow = remaining.remove(0);
        assert(row == all[i as int]);
        assert(remaining@ =~= all.skip(i + 1));
        let id: Uuid = row.item_id;
        let state: ItemCompletionState = match completion_state_from_row(row) {
            Ok(state) => state,
            Err(error) => {
                assert(!state_row_sound(all[i as int]));
                return Err(error);
            },
        };
        states.insert(id, state);
        i = i + 1;
    }
    Ok(states)
}

/// The items that are being worked on: at most the one of the active session.
pub fn execution_evidence(
    execution_revision: i64,
    active_session_id: Option<Uuid>,
    session: Option<(Uuid, String)>,
) -> (result: Result<(u64, Option<Uuid>), ItemCompletionError>)
    ensures
        match result {
            Ok((revision, live)) => {
                &&& revision == execution_revision
                &&& match active_session_id {
                    None => live is None,
                    Some(_) => session matches Some((item_id, state)) && (state@ == "active"@
                        || state@ == "paused"@) && live == Some(item_id),
                }
            },
            Err(error) => error == ItemCompletionError::Unavailable && (execution_revision < 0 || (
            active_session_id is Some && !(session matches Some((_, state)) && (state@ == "active"@
                || state@ == "paused"@)))),
        },
{
    let revision: u64 = unsigned(execution_revision)?;
    match active_execution(active_session_id, session) {
        Ok(None) => Ok((revision, None)),
        Ok(Some(active)) => Ok((revision, Some(active.item_id))),
        Err(_) => Err(ItemCompletionError::Unavailable),
    }
}

/// Whether the group of the change itself was closed before completions follow from it.
pub fn require_closed_primary_group(group: &Option<String>) -> (result: Result<
    (),
    ItemCompletionError,
>)
    ensures
        result == (if group is Some {
            Err::<(), ItemCompletionError>(ItemCompletionError::Unavailable)
        } else {
            Ok(())
        }),
{
    if group.is_some() {
        Err(ItemCompletionError::Unavailable)
    } else {
        Ok(())
    }
}

/// The bytes that are counted for a change: those of its payload, and what is kept free
/// for it where it is only tried out.
pub open spec fn counted_bytes(size: i64, delivery: CompletionDeliveryMode) -> int {
    if delivery == CompletionDeliveryMode::Preview {
        size + PREVIEW_ITEM_CHANGE_ROW_RESERVE_BYTES
    } else {
        size as int
    }
}

/// The bytes that are counted for the changes from `start` to `end`.
pub open spec fn range_bytes(
    sizes: Seq<i64>,
    delivery: CompletionDeliveryMode,
    start: int,
    end: int,
) -> int
    decreases end - start,
{
    if end <= start {
        0
    } else {
        range_bytes(sizes, delivery, start, end - 1) + counted_bytes(sizes[end - 1], delivery)
    }
}

/// Where the group that begins at `starts[k]` ends.
pub open spec fn group_end(starts: Seq<usize>, count: nat, k: int) -> int {
    if k + 1 < starts.len() {
        starts[k + 1] as int
    } else {
        count as int
    }
}

/// Whether the group at `k` is one: it has at least one change, and neither too many
/// changes nor too many bytes.
pub open spec fn group_fits(
    sizes: Seq<i64>,
    delivery: CompletionDeliveryMode,
    limits: ChangeGroupLimits,
    starts: Seq<usize>,
    k: int,
) -> bool {
    let end = group_end(starts, sizes.len(), k);
    &&& starts[k] < end <= sizes.len()
    &&& end - starts[k] <= limits.rows
    &&& range_bytes(sizes, delivery, starts[k] as int, end) <= limits.payload_bytes
}

/// Whether the group at `k` is as large as it can be: the change that follows it would
/// not fit.
pub open spec fn group_full(
    sizes: Seq<i64>,
    delivery: CompletionDeliveryMode,
    limits: ChangeGroupLimits,
    starts: Seq<usize>,
    k: int,
) -> bool {
    let end = starts[k + 1] as int;
    end - starts[k] == limits.rows || range_bytes(sizes, delivery, starts[k] as int, end + 1)
        > limits.payload_bytes
}

/// Whether `starts` are the groups of changes: every change is in one, in order, and no
/// two groups that follow each other could have been fewer.
pub open spec fn groups_pack(
    sizes: Seq<i64>,
    delivery: CompletionDeliveryMode,
    limits: ChangeGroupLimits,
    starts: Seq<usize>,
) -> bool {
    &&& sizes.len() > 0 ==> starts.len() > 0 && starts[0] == 0
    &&& sizes.len() == 0 ==> starts.len() == 0
    &&& forall|k: int| 0 <= k < starts.len() ==> #[trigger] group_fits(
        sizes,
        delivery,
        limits,
        starts,
        k,
    )
    &&& forall|k: int| 0 <= k < starts.len() - 1 ==> #[trigger] group_full(
        sizes,
        delivery,
        limits,
        starts,
        k,
    )
}

/// Why a change cannot be delivered, whatever group it is in.
pub open spec fn size_refusal(
    size: i64,
    delivery: CompletionDeliveryMode,
    limits: ChangeGroupLimits,
) -> Option<ItemCompletionError> {
    if size < 0 {
        Some(ItemCompletionError::Unavailable)
    } else if counted_bytes(size, delivery) > limits.payload_bytes {
        Some(ItemCompletionError::TooLarge)
    } else {
        None
    }
}

/// Why the changes from place `k` on cannot be delivered.
pub open spec fn first_size_refusal(
    sizes: Seq<i64>,
    delivery: CompletionDeliveryMode,
    limits: ChangeGroupLimits,
    k: int,
) -> Option<ItemCompletionError>
    decreases sizes.len() - k,
{
    if k < 0 || k >= sizes.len() {
        None
    } else {
        match size_refusal(sizes[k], delivery, limits) {
            Some(error) => Some(error),
            None => first_size_refusal(sizes, delivery, limits, k + 1),
        }
    }
}

proof fn lemma_range_step(
    sizes: Seq<i64>,
    delivery: CompletionDeliveryMode,
    start: int,
    end: int,
)
    requires
        start <= end,
    ensures
        range_bytes(sizes, delivery, start, end + 1) == range_bytes(sizes, delivery, start, end)
            + counted_bytes(sizes[end], delivery),
{
}

/// The groups in which completions are delivered: each change goes into the group before
/// it as long as it fits. `sizes` are the bytes of the payloads.
///
/// The result holds the places at which the groups begin: a group ends where the next one
/// begins, and the last one at the end.
#[verifier::loop_isolation(false)]
pub fn pack_completion_groups(
    sizes: &Vec<i64>,
    delivery: CompletionDeliveryMode,
    limits: ChangeGroupLimits,
) -> (result: Result<Vec<usize>, ItemCompletionError>)
    requires
        limits.rows > 0,
        limits.payload_bytes >= 0,
    ensures
        match result {
            Ok(starts) => first_size_refusal(sizes@, delivery, limits, 0) is None && groups_pack(
                sizes@,
                delivery,
                limits,
                starts@,
            ),
            Err(error) => first_size_refusal(sizes@, delivery, limits, 0) == Some(error),
        },
{
    let mut starts: Vec<usize> = Vec::new();
    let mut start: usize = 0;
    let mut bytes: i128 = 0;
    let mut i: usize = 0;
    while i < sizes.len()
        invariant
            i <= sizes@.len(),
            first_size_refusal(sizes@, delivery, limits, 0) == first_size_refusal(
                sizes@,
                delivery,
                limits,
                i as int,
            ),
            i == 0 ==> starts@.len() == 0 && start == 0,
            i > 0 ==> starts@.len() > 0 && starts@[0] == 0 && starts@.last() == start && start < i,
            bytes == range_bytes(sizes@, delivery, start as int, i as int),
            0 <= bytes <= limits.payload_bytes,
            i - start <= limits.rows,
            forall|k: int|
                0 <= k < starts@.len() ==> #[trigger] group_fits(
                    sizes@.take(i as int),
                    delivery,
                    limits,
                    starts@,
                    k,
                ),
            forall|k: int|
                0 <= k < starts@.len() - 1 ==> #[trigger] group_full(
                    sizes@,
                    delivery,
                    limits,
                    starts@,
                    k,
                ),
        decreases sizes.len() - i,
    {
        let size: i64 = sizes[i];
        if size < 0 {
            return Err(ItemCompletionError::Unavailable);
        }
        let counted: i128 = match delivery {
            CompletionDeliveryMode::Preview => size as i128
                + PREVIEW_ITEM_CHANGE_ROW_RESERVE_BYTES as i128,
            CompletionDeliveryMode::Committed => size as i128,
        };
        assert(counted == counted_bytes(size, delivery));
        if counted > limits.payload_bytes as i128 {
            return Err(ItemCompletionError::TooLarge);
        }
        let ghost before = starts@;
        let ghost before_start = start;
        proof {
            lemma_range_step(sizes@, delivery, start as int, i as int);
        }
        if i == 0 {
            starts.push(0);
            bytes = counted;
        } else if (i - start) as u64 == limits.rows as u64 || bytes + counted
            > limits.payload_bytes as i128 {
            starts.push(i);
            start = i;
            bytes = counted;
        } else {
            bytes = bytes + counted;
        }
        proof {
            lemma_range_step(sizes@, delivery, start as int, i as int);
            assert(range_bytes(sizes@, delivery, i as int, i as int) == 0);
            assert(bytes == range_bytes(sizes@, delivery, start as int, i + 1));
            lemma_groups_grow(
                sizes@,
                delivery,
                limits,
                before,
                starts@,
                before_start as int,
                start as int,
                i as int,
            );
        }
        i = i + 1;
    }
    assert(sizes@.take(i as int) =~= sizes@);
    Ok(starts)
}

proof fn lemma_range_prefix(
    sizes: Seq<i64>,
    delivery: CompletionDeliveryMode,
    start: int,
    end: int,
    count: int,
)
    requires
        0 <= start <= end <= count <= sizes.len(),
    ensures
        range_bytes(sizes.take(count), delivery, start, end) == range_bytes(
            sizes,
            delivery,
            start,
            end,
        ),
    decreases end - start,
{
    if start < end {
        lemma_range_prefix(sizes, delivery, start, end - 1, count);
        assert(sizes.take(count)[end - 1] == sizes[end - 1]);
    }
}

proof fn lemma_groups_grow(
    sizes: Seq<i64>,
    delivery: CompletionDeliveryMode,
    limits: ChangeGroupLimits,
    before: Seq<usize>,
    starts: Seq<usize>,
    before_start: int,
    start: int,
    i: int,
)
    requires
        0 <= i < sizes.len(),
        limits.rows > 0,
        i == 0 ==> before.len() == 0 && start == 0 && starts == before.push(0usize),
        i > 0 ==> before.len() > 0 && before.last() == before_start && before_start < i,
        i > 0 ==> (starts == before && start == before_start && i - start < limits.rows
            && range_bytes(sizes, delivery, start, i + 1) <= limits.payload_bytes) || (starts
            == before.push(i as usize) && start == i && i as usize == i && (i - before_start
            == limits.rows || range_bytes(sizes, delivery, before_start, i + 1)
            > limits.payload_bytes)),
        range_bytes(sizes, delivery, start, i + 1) <= limits.payload_bytes,
        forall|k: int|
            0 <= k < before.len() ==> #[trigger] group_fits(
                sizes.take(i),
                delivery,
                limits,
                before,
                k,
            ),
        forall|k: int|
            0 <= k < before.len() - 1 ==> #[trigger] group_full(
                sizes,
                delivery,
                limits,
                before,
                k,
            ),
    ensures
        forall|k: int|
            0 <= k < starts.len() ==> #[trigger] group_fits(
                sizes.take(i + 1),
                delivery,
                limits,
                starts,
                k,
            ),
        forall|k: int|
            0 <= k < starts.len() - 1 ==> #[trigger] group_full(
                sizes,
                delivery,
                limits,
                starts,
                k,
            ),
{
    let longer = sizes.take(i + 1);
    assert forall|k: int| 0 <= k < starts.len() implies #[trigger] group_fits(
        longer,
        delivery,
        limits,
        starts,
        k,
    ) by {
        let end = group_end(starts, longer.len(), k);
        if k < before.len() {
            assert(starts[k] == before[k]);
            assert(group_fits(sizes.take(i), delivery, limits, before, k));
            let old_end = group_end(before, sizes.take(i).len(), k);
            if k + 1 < before.len() {
                assert(starts[k + 1] == before[k + 1]);
                assert(end == old_end);
            } else {
                assert(old_end == i);
            }
            lemma_range_prefix(sizes, delivery, starts[k] as int, old_end, i);
            lemma_range_prefix(sizes, delivery, starts[k] as int, end, i + 1);
        } else {
            assert(starts[k] == start);
            assert(end == i + 1);
            lemma_range_prefix(sizes, delivery, start, i + 1, i + 1);
        }
    }
    assert forall|k: int| 0 <= k < starts.len() - 1 implies #[trigger] group_full(
        sizes,
        delivery,
        limits,
        starts,
        k,
    ) by {
        if k < before.len() - 1 {
            assert(group_full(sizes, delivery, limits, before, k));
            assert(starts[k] == before[k] && starts[k + 1] == before[k + 1]);
        } else {
            assert(starts[k] == before.last());
            assert(starts[k + 1] == i);
        }
    }
}

proof fn lemma_range_payload(
    sizes: Seq<i64>,
    delivery: CompletionDeliveryMode,
    start: int,
    end: int,
)
    requires
        start <= end,
    ensures
        range_bytes(sizes, delivery, start, end) == range_bytes(
            sizes,
            CompletionDeliveryMode::Committed,
            start,
            end,
        ) + (if delivery == CompletionDeliveryMode::Preview {
            (end - start) * PREVIEW_ITEM_CHANGE_ROW_RESERVE_BYTES
        } else {
            0
        }),
    decreases end - start,
{
    if start < end {
        lemma_range_payload(sizes, delivery, start, end - 1);
    }
}

/// Every group of completions can be delivered whole: it passes the check that closes a
/// group, for good or on trial.
pub proof fn packed_groups_are_deliverable(
    sizes: Seq<i64>,
    delivery: CompletionDeliveryMode,
    limits: ChangeGroupLimits,
    starts: Seq<usize>,
    k: int,
    count: i64,
    payload_bytes: i64,
)
    requires
        groups_pack(sizes, delivery, limits, starts),
        0 <= k < starts.len(),
        count == group_end(starts, sizes.len(), k) - starts[k],
        payload_bytes == range_bytes(
            sizes,
            CompletionDeliveryMode::Committed,
            starts[k] as int,
            group_end(starts, sizes.len(), k),
        ),
        payload_bytes >= 0,
    ensures
        crate::items::deltas::group_check(
            count,
            payload_bytes,
            if delivery == CompletionDeliveryMode::Preview {
                PREVIEW_ITEM_CHANGE_ROW_RESERVE_BYTES
            } else {
                0
            },
            limits,
        ) is Ok,
{
    assert(group_fits(sizes, delivery, limits, starts, k));
    lemma_range_payload(sizes, delivery, starts[k] as int, group_end(starts, sizes.len(), k));
    assert(count * 0 == 0);
}

/// The instant of a completion as the database keeps it.
pub fn completion_storage_instant(value: Instant) -> (result: Instant)
    requires
        crate::time::in_time_range(value),
    ensures
        result == crate::time::stored_instant(value),
{
    truncate_to_micros(value)
}

/// Whether a state can be brought back for an item that was brought back: it is the
/// state of that item, and the item has moved on by one revision.
pub open spec fn restorable(snapshot: ItemCompletionState, before: Item, after: Item) -> bool {
    snapshot.item_id == after.id && before.id == after.id && before.revision < u64::MAX
        && before.revision + 1 == after.revision
}

/// The state with another revision and time of change.
pub open spec fn state_at(
    state: ItemCompletionState,
    revision: u64,
    updated_at: Option<Instant>,
) -> ItemCompletionState {
    ItemCompletionState { revision, updated_at, ..state }
}

/// The state that comes back with a former state of an item, or `None` if it is the
/// present one already.
///
/// `snapshot` is the former state, `validation` whether these rules allow it, and
/// `present` the state that the item has.
pub fn restore_completion_semantics(
    before: &Item,
    after: &Item,
    snapshot: ItemCompletionState,
    validation: Result<(), ItemCompletionError>,
    present: &ItemCompletionState,
    now: Instant,
) -> (result: Result<Option<ItemCompletionState>, ItemCompletionError>)
    requires
        crate::time::in_time_range(now),
    ensures
        ({
            let unchanged = state_same(
                state_at(snapshot, present.revision, present.updated_at),
                *present,
            );
            if validation is Err {
                result matches Err(error) && error == validation->Err_0
            } else if !restorable(snapshot, *before, *after) {
                result matches Err(error) && error == ItemCompletionError::Invalid
            } else if unchanged {
                result matches Ok(state) && state is None
            } else if snapshot.provenance is Some && after.status != ItemStatus::Completed {
                result matches Err(error) && error == ItemCompletionError::ReopeningReviewRequired
            } else if present.revision == u64::MAX {
                result matches Err(error) && error == ItemCompletionError::Unavailable
            } else {
                result matches Ok(state) && state == Some(
                    state_at(
                        snapshot,
                        (present.revision + 1) as u64,
                        Some(crate::time::stored_instant(now) as Instant),
                    ),
                )
            }
        }),
{
    let stored: Instant = completion_storage_instant(now);
    if let Err(error) = validation {
        return Err(error);
    }
    if snapshot.item_id != after.id || before.id != after.id || before.revision == u64::MAX
        || before.revision + 1 != after.revision {
        return Err(ItemCompletionError::Invalid);
    }
    let mut state: ItemCompletionState = snapshot;
    state.revision = present.revision;
    state.updated_at = present.updated_at;
    if state.same(present) {
        return Ok(None);
    }
    if state.provenance.is_some() && after.status != ItemStatus::Completed {
        return Err(ItemCompletionError::ReopeningReviewRequired);
    }
    if present.revision == u64::MAX {
        return Err(ItemCompletionError::Unavailable);
    }
    state.revision = present.revision + 1;
    state.updated_at = Some(stored);
    Ok(Some(state))
}

/// The evidence that a state was brought back: the hash of the document of the item and
/// its states before and after.
pub fn restore_evidence(document: &Vec<u8>) -> (result: String)
    ensures
        result@ == crate::hashing::prefixed_text(crate::outside::sha256_of(document@)),
{
    encoded_hash(hash_bytes(document))
}

/// The columns of an evaluation of completions.
#[derive(Clone, Copy, Debug, PartialEq, Eq, Structural)]
pub struct EvaluationRecord {
    pub execution_revision: i64,
    pub effect_count: i32,
}

/// Writes down an evaluation of completions with `effect_count` effects.
pub fn evaluation_record(execution_revision: u64, effect_count: usize) -> (result: Result<
    EvaluationRecord,
    ItemCompletionError,
>)
    ensures
        match result {
            Ok(record) => record.execution_revision == execution_revision && record.effect_count
                == effect_count,
            Err(error) => if execution_revision > i64::MAX {
                error == ItemCompletionError::Unavailable
            } else {
                effect_count > i32::MAX && error == ItemCompletionError::TooLarge
            },
        },
{
    let execution_revision: i64 = revision(execution_revision)?;
    if effect_count > 2147483647 {
        return Err(ItemCompletionError::TooLarge);
    }
    Ok(EvaluationRecord { execution_revision, effect_count: effect_count as i32 })
}

/// The revisions with which an effect on a state is stored.
#[derive(Clone, Copy, Debug, PartialEq, Eq, Structural)]
pub struct StateEffectRecord {
    pub before_item_revision: i64,
    pub after_item_revision: i64,
    pub completion_revision: i64,
    /// The revision that the stored state has to have, or `None` if there is none yet.
    pub expected_revision: Option<i64>,
}

/// Writes down an effect: the first state of an item is added, a later one replaces the
/// one before it.
pub fn state_effect_record(
    before_item_revision: u64,
    after_item_revision: u64,
    before_state_revision: u64,
    after_state_revision: u64,
) -> (result: Result<StateEffectRecord, ItemCompletionError>)
    ensures
        match result {
            Ok(record) => {
                &&& record.before_item_revision == before_item_revision
                &&& record.after_item_revision == after_item_revision
                &&& record.completion_revision == after_state_revision
                &&& match record.expected_revision {
                    None => before_state_revision == 0,
                    Some(expected) => before_state_revision != 0 && expected
                        == before_state_revision,
                }
            },
            Err(error) => error == ItemCompletionError::Unavailable && (before_item_revision
                > i64::MAX || after_item_revision > i64::MAX || before_state_revision > i64::MAX
                || after_state_revision > i64::MAX),
        },
{
    let completion_revision: i64 = revision(after_state_revision)?;
    let expected_revision: Option<i64> = if before_state_revision == 0 {
        None
    } else {
        Some(revision(before_state_revision)?)
    };
    let before: i64 = revision(before_item_revision)?;
    let after: i64 = revision(after_item_revision)?;
    Ok(
        StateEffectRecord {
            before_item_revision: before,
            after_item_revision: after,
            completion_revision,
            expected_revision,
        },
    )
}

/// A command on completions that was answered before.
#[derive(Debug)]
pub struct CompletionReceipt {
    pub item_id: Uuid,
    pub request: Json,
    /// What was answered, if it can be read.
    pub result: Option<Json>,
}

/// What is answered to a command on completions.
#[derive(Debug)]
pub struct ItemCompletionMutation {
    pub operation_id: Uuid,
    pub replayed: bool,
    pub completion: Json,
}

/// Answers a command that was answered before as it was then, or gives `None` if it was
/// not. The same operation cannot ask for anything else.
pub fn replay_completion(
    receipt: Option<CompletionReceipt>,
    operation_id: Uuid,
    item_id: Uuid,
    request: &Json,
) -> (result: Result<Option<ItemCompletionMutation>, ItemCompletionError>)
    ensures
        match receipt {
            None => result matches Ok(answer) && answer is None,
            Some(receipt) => if receipt.item_id != item_id || !crate::json::json_same(
                receipt.request,
                *request,
            ) {
                result matches Err(error) && error == ItemCompletionError::OperationReused
            } else {
                match receipt.result {
                    None => result matches Err(error) && error == ItemCompletionError::Unavailable,
                    Some(completion) => result matches Ok(answer) && answer == Some(
                        ItemCompletionMutation { operation_id, replayed: true, completion },
                    ),
                }
            },
        },
{
    match receipt {
        None => Ok(None),
        Some(receipt) => {
            if receipt.item_id != item_id || !receipt.request.same(request) {
                return Err(ItemCompletionError::OperationReused);
            }
            match receipt.result {
                Some(completion) => Ok(
                    Some(ItemCompletionMutation { operation_id, replayed: true, completion }),
                ),
                None => Err(ItemCompletionError::Unavailable),
            }
        },
    }
}

/// Whether completions may be read or changed in a workspace: by its owner, while
/// neither is about to be deleted.
pub fn check_owner(permitted: bool) -> (result: Result<(), ItemCompletionError>)
    ensures
        result == (if permitted {
            Ok::<(), ItemCompletionError>(())
        } else {
            Err(ItemCompletionError::Unavailable)
        }),
{
    if permitted {
        Ok(())
    } else {
        Err(ItemCompletionError::Unavailable)
    }
}

/// The completion of an item that is among the items of the workspace. `planned` is what
/// the completion rules say of it.
pub fn read_snapshot(items: &Vec<Uuid>, item_id: Uuid, planned: Result<
    Option<Json>,
    ItemCompletionError,
>) -> (result: Result<Json, ItemCompletionError>)
    ensures
        if !items@.contains(item_id) {
            result matches Err(error) && error == ItemCompletionError::ItemMissing
        } else {
            match planned {
                Err(refusal) => result matches Err(error) && error == refusal,
                Ok(None) => result matches Err(error) && error == ItemCompletionError::ItemMissing,
                Ok(Some(snapshot)) => result matches Ok(answer) && answer == snapshot,
            }
        },
{
    if !holds_id(items, item_id) {
        return Err(ItemCompletionError::ItemMissing);
    }
    match planned {
        Err(refusal) => Err(refusal),
        Ok(None) => Err(ItemCompletionError::ItemMissing),
        Ok(Some(snapshot)) => Ok(snapshot),
    }
}

/// Whether the state of an item was still the one that was read. `updated` is how many
/// rows were written.
pub fn check_state_written(updated: u64) -> (result: Result<(), ItemCompletionError>)
    ensures
        result == (if updated == 1 {
            Ok::<(), ItemCompletionError>(())
        } else {
            Err(ItemCompletionError::Unavailable)
        }),
{
    if updated == 1 {
        Ok(())
    } else {
        Err(ItemCompletionError::Unavailable)
    }
}

/// The name of what an evaluation of completions was caused by.
pub fn evaluation_cause(operation_id: Option<Uuid>) -> (result: &'static str)
    ensures
        result@ == (if operation_id is Some {
            "policy_command"@
        } else {
            "canonical_write"@
        }),
{
    if operation_id.is_some() {
        "policy_command"
    } else {
        "canonical_write"
    }
}

} // verus!
