//! Snapshots of all items for devices that start anew: bounded manifests of changes that
//! are read page by page.
use vstd::prelude::*;

use crate::items::deltas::{DeltaChange, StoredPayload};
use crate::items::model::ItemRepositoryError;
use crate::text::same_text;
use crate::time::{Instant, Uuid};

verus! {

/// How many bytes a snapshot may have.
pub const MAX_SNAPSHOT_BYTES: u64 = 33_554_432;

/// Bytes that are counted for each change besides its payload.
pub const CHANGE_OVERHEAD_BYTES: u64 = 64;

/// How many changes are read for one page.
pub const SNAPSHOT_PAGE_ROWS: usize = 300;

/// How large snapshots may be, how many may be open, and how long they last.
#[derive(Clone, Copy, Debug, PartialEq, Eq, Structural)]
pub struct BootstrapLimits {
    pub members: usize,
    pub tickets: i64,
    /// In nanoseconds.
    pub ttl: i128,
    /// For how many nanoseconds items in the trash are part of a snapshot.
    pub trash_retention: i128,
}

/// Where a device stands in a snapshot: behind so many changes.
#[derive(Clone, Copy, Debug, PartialEq, Eq, Structural)]
pub struct ItemBootstrapPosition {
    pub snapshot_id: Uuid,
    pub after: usize,
}

/// A part of a snapshot.
#[derive(Debug)]
pub struct ItemBootstrapPage {
    pub changes: Vec<DeltaChange>,
    /// The change up to which the snapshot is complete.
    pub head: u64,
    /// Where to go on, if this is not the last part.
    pub continuation: Option<ItemBootstrapPosition>,
}

/// Whether a device may start anew.
pub fn check_permitted(permitted: bool) -> (result: Result<(), ItemRepositoryError>)
    ensures
        result == (if permitted {
            Ok::<(), ItemRepositoryError>(())
        } else {
            Err(ItemRepositoryError::BootstrapExpired)
        }),
{
    if permitted {
        Ok(())
    } else {
        Err(ItemRepositoryError::BootstrapExpired)
    }
}

/// Whether a snapshot is made: `Ok(Some(..))` is the start of one that can be used again,
/// because nothing changed since. `active` is how many are open.
pub fn begin_capture(reusable: Option<Uuid>, active: i64, limits: &BootstrapLimits) -> (result:
    Result<Option<ItemBootstrapPosition>, ItemRepositoryError>)
    ensures
        result == match reusable {
            Some(snapshot_id) => Ok::<Option<ItemBootstrapPosition>, ItemRepositoryError>(
                Some(ItemBootstrapPosition { snapshot_id, after: 0 }),
            ),
            None => if active >= limits.tickets {
                Err(ItemRepositoryError::BootstrapCapacity)
            } else {
                Ok(None)
            },
        },
{
    match reusable {
        Some(snapshot_id) => Ok(Some(ItemBootstrapPosition { snapshot_id, after: 0 })),
        None => if active >= limits.tickets {
            Err(ItemRepositoryError::BootstrapCapacity)
        } else {
            Ok(None)
        },
    }
}

/// The instant from which on items in the trash are part of a snapshot, and the one at
/// which the snapshot expires.
pub fn snapshot_times(now: Instant, limits: &BootstrapLimits) -> (result: (Instant, Instant))
    requires
        crate::time::in_time_range(now),
        crate::time::in_time_range(limits.ttl),
        crate::time::in_time_range(limits.trash_retention),
    ensures
        result.0 == now - limits.trash_retention,
        result.1 == now + limits.ttl,
{
    (now - limits.trash_retention, now + limits.ttl)
}

/// The last change of an item, as far as it is stored.
#[derive(Clone, Copy, Debug, PartialEq, Eq, Structural)]
pub struct ManifestRow {
    pub sequence: Option<i64>,
    pub payload_bytes: Option<u32>,
}

/// The changes of a snapshot.
#[derive(Debug)]
pub struct SnapshotManifest {
    pub sequences: Vec<i64>,
    pub payload_bytes: u64,
}

/// Whether the last change of an item is stored and not newer than the snapshot.
pub open spec fn manifest_row_sound(row: ManifestRow, head: i64) -> bool {
    row.sequence is Some && row.sequence->0 <= head && row.payload_bytes is Some
}

/// The bytes of the payloads of the first `count` changes.
pub open spec fn manifest_bytes(rows: Seq<ManifestRow>, count: nat) -> nat
    decreases count,
{
    if count == 0 {
        0
    } else {
        manifest_bytes(rows, (count - 1) as nat) + (match rows[count - 1].payload_bytes {
            Some(bytes) => bytes as nat,
            None => 0,
        })
    }
}

/// The changes of a snapshot, one for each item: every item must have its last change,
/// and there must be neither too many changes nor too many bytes.
pub fn snapshot_manifest(rows: &Vec<ManifestRow>, head: i64, limits: &BootstrapLimits) -> (result:
    Result<SnapshotManifest, ItemRepositoryError>)
    ensures
        match result {
            Ok(manifest) => {
                &&& rows@.len() <= limits.members
                &&& manifest.sequences@.len() == rows@.len()
                &&& forall|k: int|
                    0 <= k < rows@.len() ==> manifest_row_sound(#[trigger] rows@[k], head)
                        && manifest.sequences@[k] == rows@[k].sequence->0
                &&& manifest.payload_bytes == manifest_bytes(rows@, rows@.len())
                &&& manifest.payload_bytes + rows@.len() * CHANGE_OVERHEAD_BYTES
                    <= MAX_SNAPSHOT_BYTES
            },
            Err(error) => if rows@.len() > limits.members {
                error == ItemRepositoryError::BootstrapTooLarge
            } else if exists|k: int|
                0 <= k < rows@.len() && !manifest_row_sound(#[trigger] rows@[k], head) {
                error == ItemRepositoryError::Internal
            } else {
                error == ItemRepositoryError::BootstrapTooLarge && manifest_bytes(
                    rows@,
                    rows@.len(),
                ) + rows@.len() * CHANGE_OVERHEAD_BYTES > MAX_SNAPSHOT_BYTES
            },
        },
{
    if rows.len() > limits.members {
        return Err(ItemRepositoryError::BootstrapTooLarge);
    }
    let mut sequences: Vec<i64> = Vec::new();
    let mut bytes: u128 = 0;
    let mut i: usize = 0;
    while i < rows.len()
        invariant
            i <= rows.len(),
            rows@.len() <= limits.members,
            sequences@.len() == i,
            forall|k: int|
                0 <= k < i ==> manifest_row_sound(#[trigger] rows@[k], head) && sequences@[k]
                    == rows@[k].sequence->0,
            bytes == manifest_bytes(rows@, i as nat),
            bytes <= i * 0xffff_ffff,
        decreases rows.len() - i,
    {
        let row: ManifestRow = rows[i];
        match (row.sequence, row.payload_bytes) {
            (Some(sequence), Some(size)) => {
                if sequence > head {
                    assert(!manifest_row_sound(rows@[i as int], head));
                    return Err(ItemRepositoryError::Internal);
                }
                sequences.push(sequence);
                assert(bytes + size as u128 <= (i + 1) * 0xffff_ffff);
                bytes = bytes + size as u128;
            },
            _ => {
                assert(!manifest_row_sound(rows@[i as int], head));
                return Err(ItemRepositoryError::Internal);
            },
        }
        i = i + 1;
    }
    let total: u128 = bytes + rows.len() as u128 * CHANGE_OVERHEAD_BYTES as u128;
    if total > MAX_SNAPSHOT_BYTES as u128 {
        return Err(ItemRepositoryError::BootstrapTooLarge);
    }
    Ok(SnapshotManifest { sequences, payload_bytes: bytes as u64 })
}

/// Whether numbers stand in order.
pub open spec fn ascending(numbers: Seq<i64>) -> bool {
    forall|i: int, j: int|
        0 <= i <= j < numbers.len() ==> #[trigger] numbers[i] <= #[trigger] numbers[j]
}

/// The changes of a snapshot in the order in which they are delivered.
pub fn sorted_sequences(sequences: &Vec<i64>) -> (result: Vec<i64>)
    ensures
        ascending(result@),
        result@.to_multiset() == sequences@.to_multiset(),
{
    let mut sorted: Vec<i64> = Vec::new();
    let mut i: usize = 0;
    assert(sequences@.take(0) =~= sorted@);
    while i < sequences.len()
        invariant
            i <= sequences.len(),
            ascending(sorted@),
            sorted@.to_multiset() == sequences@.take(i as int).to_multiset(),
        decreases sequences.len() - i,
    {
        let next: i64 = sequences[i];
        let mut place: usize = sorted.len();
        while place > 0 && sorted[place - 1] > next
            invariant
                place <= sorted.len(),
                forall|k: int| place <= k < sorted@.len() ==> #[trigger] sorted@[k] > next,
            decreases place,
        {
            place = place - 1;
        }
        let ghost before = sorted@;
        sorted.insert(place, next);
        proof {
            assert(sorted@ == before.insert(place as int, next));
            vstd::seq_lib::to_multiset_insert(before, place as int, next);
            vstd::seq_lib::to_multiset_build(sequences@.take(i as int), next);
            assert(sequences@.take(i + 1) =~= sequences@.take(i as int).push(next));
            assert forall|a: int, b: int| 0 <= a <= b < sorted@.len() implies #[trigger] sorted@[a]
                <= #[trigger] sorted@[b] by {
                let old_a = if a < place { a } else { a - 1 };
                let old_b = if b < place { b } else { b - 1 };
                if a != place {
                    assert(sorted@[a] == before[old_a]);
                }
                if b != place {
                    assert(sorted@[b] == before[old_b]);
                }
                if a == place && b > place {
                    assert(before[old_b] > next);
                }
                if a < place && b == place {
                    assert(before[a] <= before[place - 1]);
                }
            }
        }
        i = i + 1;
    }
    assert(sequences@.take(i as int) =~= sequences@);
    sorted
}

/// The change that is stored, if it is the one of the item and revision that it stands
/// under.
pub open spec fn decoded(
    kind: Seq<char>,
    payload: StoredPayload,
    id: Uuid,
    revision: i64,
) -> Option<DeltaChange> {
    if revision <= 0 || id == 0 {
        None
    } else if kind == "upsert"@ {
        match payload {
            StoredPayload::Item(item) => if item.id == id && item.revision == revision
                && item.deleted_at is None {
                Some(DeltaChange::Upsert { item })
            } else {
                None
            },
            _ => None,
        }
    } else if kind == "tombstone"@ {
        match payload {
            StoredPayload::Tombstone(tombstone) => if tombstone.id == id && tombstone.revision
                == revision {
                Some(DeltaChange::Tombstone { tombstone })
            } else {
                None
            },
            _ => None,
        }
    } else {
        None
    }
}

/// The change that is stored, if it is the one of the item and revision that it stands
/// under.
pub fn decode(kind: &str, payload: StoredPayload, id: Uuid, revision: i64) -> (result: Result<
    DeltaChange,
    ItemRepositoryError,
>)
    ensures
        match decoded(kind@, payload, id, revision) {
            Some(change) => result == Ok::<DeltaChange, ItemRepositoryError>(change),
            None => result == Err::<DeltaChange, ItemRepositoryError>(
                ItemRepositoryError::Internal,
            ),
        },
{
    if revision <= 0 || id == 0 {
        return Err(ItemRepositoryError::Internal);
    }
    if same_text(kind, "upsert") {
        match payload {
            StoredPayload::Item(item) => {
                if item.id == id && item.revision == revision as u64 && item.deleted_at.is_none() {
                    Ok(DeltaChange::Upsert { item })
                } else {
                    Err(ItemRepositoryError::Internal)
                }
            },
            _ => Err(ItemRepositoryError::Internal),
        }
    } else if same_text(kind, "tombstone") {
        match payload {
            StoredPayload::Tombstone(tombstone) => {
                if tombstone.id == id && tombstone.revision == revision as u64 {
                    Ok(DeltaChange::Tombstone { tombstone })
                } else {
                    Err(ItemRepositoryError::Internal)
                }
            },
            _ => Err(ItemRepositoryError::Internal),
        }
    } else {
        Err(ItemRepositoryError::Internal)
    }
}

/// What is stored of a snapshot.
#[derive(Clone, Copy, Debug, PartialEq, Eq, Structural)]
pub struct SnapshotHeader {
    pub head_sequence: i64,
    pub member_count: i32,
    pub expires_at: Instant,
}

/// Why a snapshot cannot be read on from a position.
pub open spec fn position_refusal(
    header: Option<SnapshotHeader>,
    position: ItemBootstrapPosition,
    now: Instant,
) -> Option<ItemRepositoryError> {
    match header {
        None => Some(ItemRepositoryError::BootstrapExpired),
        Some(header) => if header.expires_at <= now {
            Some(ItemRepositoryError::BootstrapExpired)
        } else if header.member_count < 0 {
            Some(ItemRepositoryError::Internal)
        } else if position.after > header.member_count || (position.after == header.member_count
            && header.member_count != 0) {
            Some(ItemRepositoryError::BootstrapCursorInvalid)
        } else {
            None
        },
    }
}

/// How many changes a snapshot has, if it can be read on from a position at `now`.
pub fn open_snapshot(
    header: &Option<SnapshotHeader>,
    position: ItemBootstrapPosition,
    now: Instant,
) -> (result: Result<usize, ItemRepositoryError>)
    ensures
        match result {
            Ok(total) => position_refusal(*header, position, now) is None && header is Some && total
                == header->0.member_count && position.after <= total,
            Err(error) => position_refusal(*header, position, now) == Some(error),
        },
{
    match header {
        None => Err(ItemRepositoryError::BootstrapExpired),
        Some(header) => {
            if header.expires_at <= now {
                return Err(ItemRepositoryError::BootstrapExpired);
            }
            if header.member_count < 0 {
                return Err(ItemRepositoryError::Internal);
            }
            let total: usize = header.member_count as usize;
            if position.after > total || (position.after == total && total != 0) {
                return Err(ItemRepositoryError::BootstrapCursorInvalid);
            }
            Ok(total)
        },
    }
}

/// A change of a snapshot as it is stored.
#[derive(Debug)]
pub struct SnapshotRow {
    pub ordinal: i32,
    pub item_id: Uuid,
    pub item_revision: i64,
    pub change_kind: String,
    pub payload: StoredPayload,
}

/// Whether a row is the one that follows a position: its place is the right one, and it
/// holds a change.
pub open spec fn snapshot_row_sound(row: SnapshotRow, ordinal: int) -> bool {
    row.ordinal == ordinal && decoded(
        row.change_kind@,
        row.payload,
        row.item_id,
        row.item_revision,
    ) is Some
}

/// How many changes are read behind a position.
pub open spec fn expected_rows(total: usize, after: usize) -> int {
    if total - after <= SNAPSHOT_PAGE_ROWS {
        total - after
    } else {
        SNAPSHOT_PAGE_ROWS as int
    }
}

/// The changes of a snapshot behind a position: all that belong there, in order.
pub fn snapshot_changes(total: usize, after: usize, rows: Vec<SnapshotRow>) -> (result: Result<
    Vec<DeltaChange>,
    ItemRepositoryError,
>)
    requires
        after <= total,
        total <= i32::MAX,
    ensures
        match result {
            Ok(changes) => {
                &&& rows@.len() == expected_rows(total, after)
                &&& changes@.len() == rows@.len()
                &&& forall|k: int|
                    0 <= k < rows@.len() ==> Some(#[trigger] changes@[k]) == decoded(
                        rows@[k].change_kind@,
                        rows@[k].payload,
                        rows@[k].item_id,
                        rows@[k].item_revision,
                    ) && rows@[k].ordinal == after + k + 1
            },
            Err(error) => error == ItemRepositoryError::Internal && (rows@.len() != expected_rows(
                total,
                after,
            ) || exists|k: int|
                0 <= k < rows@.len() && !snapshot_row_sound(#[trigger] rows@[k], after + k + 1)),
        },
{
    let ghost all = rows@;
    let expected: usize = if total - after <= SNAPSHOT_PAGE_ROWS {
        total - after
    } else {
        SNAPSHOT_PAGE_ROWS
    };
    if rows.len() != expected {
        return Err(ItemRepositoryError::Internal);
    }
    let mut remaining: Vec<SnapshotRow> = rows;
    let mut changes: Vec<DeltaChange> = Vec::new();
    let mut i: usize = 0;
    while i < expected
        invariant
            i <= expected,
            expected == all.len(),
            all.len() == expected_rows(total, after),
            after <= total <= i32::MAX,
            rows@ == all,
            remaining@ == all.skip(i as int),
            changes@.len() == i,
            forall|k: int|
                0 <= k < i ==> Some(#[trigger] changes@[k]) == decoded(
                    all[k].change_kind@,
                    all[k].payload,
                    all[k].item_id,
                    all[k].item_revision,
                ) && all[k].ordinal == after + k + 1,
        decreases expected - i,
    {
        let row: SnapshotRow = remaining.remove(0);
        assert(row == all[i as int]);
        assert(remaining@ =~= all.skip(i + 1));
        if row.ordinal < 0 || row.ordinal as usize != after + i + 1 {
            assert(!snapshot_row_sound(all[i as int], after + i + 1));
            return Err(ItemRepositoryError::Internal);
        }
        match decode(row.change_kind.as_str(), row.payload, row.item_id, row.item_revision) {
            Ok(change) => {
                changes.push(change);
            },
            Err(error) => {
                assert(!snapshot_row_sound(all[i as int], after + i + 1));
                return Err(error);
            },
        }
        i = i + 1;
    }
    Ok(changes)
}

/// A part of a snapshot: the first `count` of the changes behind a position, as many as
/// can be delivered at once.
pub fn snapshot_page(
    header: &SnapshotHeader,
    position: ItemBootstrapPosition,
    total: usize,
    changes: Vec<DeltaChange>,
    count: usize,
) -> (result: Result<ItemBootstrapPage, ItemRepositoryError>)
    requires
        position.after <= total,
        count <= changes@.len() <= total - position.after,
    ensures
        match result {
            Ok(page) => {
                &&& page.changes@ == changes@.take(count as int)
                &&& page.head == header.head_sequence
                &&& page.continuation == (if position.after + count < total {
                    Some(
                        ItemBootstrapPosition {
                            snapshot_id: position.snapshot_id,
                            after: (position.after + count) as usize,
                        },
                    )
                } else {
                    None
                })
            },
            Err(error) => header.head_sequence < 0 && error == ItemRepositoryError::Internal,
        },
{
    let head: u64 = match crate::numbers::unsigned(header.head_sequence) {
        Some(head) => head,
        None => {
            return Err(ItemRepositoryError::Internal);
        },
    };
    let ghost all = changes@;
    let mut kept: Vec<DeltaChange> = changes;
    kept.truncate(count);
    assert(kept@ =~= all.take(count as int));
    let after: usize = position.after + count;
    Ok(
        ItemBootstrapPage {
            changes: kept,
            head,
            continuation: if after < total {
                Some(ItemBootstrapPosition { snapshot_id: position.snapshot_id, after })
            } else {
                None
            },
        },
    )
}

/// A device that goes on wherever a page tells it to gets every change of a snapshot
/// exactly once: `starts` are the positions of the pages, each behind the changes of the
/// page before, up to the end of the snapshot. Then every change is in one page, and in
/// no other.
pub proof fn pages_cover_the_snapshot(starts: Seq<nat>, total: nat, ordinal: nat)
    requires
        starts.len() > 0,
        starts[0] == 0,
        starts.last() == total,
        forall|i: int|
            #![trigger starts[i]]
            0 <= i < starts.len() - 1 ==> starts[i] <= starts[i + 1],
        1 <= ordinal <= total,
    ensures
        exists|i: int|
            #![trigger starts[i]]
            0 <= i < starts.len() - 1 && starts[i] < ordinal <= starts[i + 1] && forall|j: int|
                #![trigger starts[j]]
                0 <= j < starts.len() - 1 && starts[j] < ordinal <= starts[j + 1] ==> j == i,
{
    let i = lemma_page_of(starts, ordinal, (starts.len() - 1) as nat);
    assert forall|j: int|
        #![trigger starts[j]]
        0 <= j < starts.len() - 1 && starts[j] < ordinal <= starts[j + 1] implies j == i by {
        if j < i {
            lemma_starts_grow(starts, j + 1, i);
        } else if i < j {
            lemma_starts_grow(starts, i + 1, j);
        }
    }
    assert(starts[i] < ordinal <= starts[i + 1]);
}

proof fn lemma_page_of(starts: Seq<nat>, ordinal: nat, last: nat) -> (page: int)
    requires
        last < starts.len(),
        starts[0] == 0,
        1 <= ordinal <= starts[last as int],
    ensures
        0 <= page < last,
        starts[page] < ordinal <= starts[page + 1],
    decreases last,
{
    if starts[last - 1] < ordinal {
        last - 1
    } else {
        lemma_page_of(starts, ordinal, (last - 1) as nat)
    }
}

proof fn lemma_starts_grow(starts: Seq<nat>, a: int, b: int)
    requires
        0 <= a <= b < starts.len(),
        forall|i: int|
            #![trigger starts[i]]
            0 <= i < starts.len() - 1 ==> starts[i] <= starts[i + 1],
    ensures
        starts[a] <= starts[b],
    decreases b - a,
{
    if a < b {
        lemma_starts_grow(starts, a, b - 1);
        assert(starts[b - 1] <= starts[b]);
    }
}

} // verus!
