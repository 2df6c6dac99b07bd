//! The stream of item changes: groups that are delivered whole, and pages.
use vstd::prelude::*;

use crate::ids::insert_id;
use crate::items::model::{Item, ItemRepositoryError};
use crate::items::storage::ItemTombstone;
use crate::text::same_text;
use crate::time::Uuid;

verus! {

/// Bytes that a review keeps free for each change, for fields that are written anew when
/// the change is made later.
pub const PREVIEW_ITEM_CHANGE_ROW_RESERVE_BYTES: i64 = 1024;

/// How large a group of changes may be that is delivered whole.
#[derive(Clone, Copy, Debug, PartialEq, Eq, Structural)]
pub struct ChangeGroupLimits {
    pub rows: i64,
    pub payload_bytes: i64,
}

/// What a group would need, with so many bytes kept free for each change.
pub open spec fn reserved_bytes(count: i64, payload_bytes: i64, reserve: i64) -> int {
    payload_bytes + count * reserve
}

/// Whether a group of changes can be delivered whole.
pub open spec fn group_check(
    count: i64,
    payload_bytes: i64,
    reserve: i64,
    limits: ChangeGroupLimits,
) -> Result<(), ItemRepositoryError> {
    if count <= 0 || payload_bytes < 0 || reserve < 0 {
        Err(ItemRepositoryError::Internal)
    } else if count > limits.rows || (limits.payload_bytes < reserved_bytes(
        count,
        payload_bytes,
        reserve,
    ) <= i64::MAX) {
        Err(ItemRepositoryError::DeltaGroupTooLarge)
    } else if reserved_bytes(count, payload_bytes, reserve) > i64::MAX {
        Err(ItemRepositoryError::Internal)
    } else {
        Ok(())
    }
}

/// Whether a group of changes can be delivered whole, with so many bytes kept free for
/// each change.
pub fn validate_item_change_group_with_reserve(
    count: i64,
    payload_bytes: i64,
    reserved_bytes_per_row: i64,
    limits: ChangeGroupLimits,
) -> (result: Result<(), ItemRepositoryError>)
    ensures
        result == group_check(count, payload_bytes, reserved_bytes_per_row, limits),
{
    if count <= 0 || payload_bytes < 0 || reserved_bytes_per_row < 0 {
        return Err(ItemRepositoryError::Internal);
    }
    proof {
        assert(0 <= count * reserved_bytes_per_row <= i64::MAX * i64::MAX) by (nonlinear_arith)
            requires
                0 < count <= i64::MAX,
                0 <= reserved_bytes_per_row <= i64::MAX,
        ;
    }
    let needed: i128 = payload_bytes as i128 + count as i128 * reserved_bytes_per_row as i128;
    if count > limits.rows || (needed > limits.payload_bytes as i128 && needed <= i64::MAX as i128) {
        return Err(ItemRepositoryError::DeltaGroupTooLarge);
    }
    if needed > i64::MAX as i128 {
        return Err(ItemRepositoryError::Internal);
    }
    Ok(())
}

/// Whether a group of changes can be delivered whole.
pub fn validate_item_change_group(
    count: i64,
    payload_bytes: i64,
    limits: ChangeGroupLimits,
) -> (result: Result<(), ItemRepositoryError>)
    ensures
        result == group_check(count, payload_bytes, 0, limits),
{
    validate_item_change_group_with_reserve(count, payload_bytes, 0, limits)
}

/// Whether a group of changes that is only tried out could be delivered whole later.
pub fn validate_preview_item_change_group(
    count: i64,
    payload_bytes: i64,
    limits: ChangeGroupLimits,
) -> (result: Result<(), ItemRepositoryError>)
    ensures
        result == group_check(
            count,
            payload_bytes,
            PREVIEW_ITEM_CHANGE_ROW_RESERVE_BYTES,
            limits,
        ),
{
    validate_item_change_group_with_reserve(
        count,
        payload_bytes,
        PREVIEW_ITEM_CHANGE_ROW_RESERVE_BYTES,
        limits,
    )
}

/// A group that passes review can be delivered when it is made later, as long as no
/// change grows by more than the bytes that are kept free for it.
pub proof fn reviewed_group_stays_deliverable(
    count: i64,
    reviewed_bytes: i64,
    actual_bytes: i64,
    limits: ChangeGroupLimits,
)
    requires
        group_check(count, reviewed_bytes, PREVIEW_ITEM_CHANGE_ROW_RESERVE_BYTES, limits) is Ok,
        0 <= actual_bytes <= reviewed_bytes + count * PREVIEW_ITEM_CHANGE_ROW_RESERVE_BYTES,
    ensures
        group_check(count, actual_bytes, 0, limits) is Ok,
{
    assert(count * 0 == 0);
}

/// The group with the given identifier among those of some changes.
pub open spec fn group_rows(groups: Seq<Option<Uuid>>, id: Uuid) -> nat {
    groups.filter(|group: Option<Uuid>| group == Some(id)).len()
}

/// Whether `ids` are the groups of some changes, in increasing order.
pub open spec fn ids_of_groups(groups: Seq<Option<Uuid>>, ids: Seq<Uuid>) -> bool {
    &&& crate::ids::increasing(ids)
    &&& forall|id: Uuid| #[trigger] ids.contains(id) <==> groups.contains(Some(id))
}

/// The groups of some changes.
pub fn selected_group_ids(groups: &Vec<Option<Uuid>>) -> (result: Vec<Uuid>)
    ensures
        ids_of_groups(groups@, result@),
{
    let mut ids: Vec<Uuid> = Vec::new();
    let mut i: usize = 0;
    while i < groups.len()
        invariant
            i <= groups.len(),
            ids_of_groups(groups@.take(i as int), ids@),
        decreases groups.len() - i,
    {
        let ghost before = ids@;
        let ghost shorter = groups@.take(i as int);
        match groups[i] {
            Some(id) => {
                insert_id(&mut ids, id);
            },
            None => {},
        }
        proof {
            let longer = groups@.take(i + 1);
            assert(longer =~= shorter.push(groups@[i as int]));
            assert forall|id: Uuid| #[trigger]
                ids@.contains(id) <==> longer.contains(Some(id)) by {
                if longer.contains(Some(id)) {
                    let k = choose|k: int| 0 <= k < longer.len() && longer[k] == Some(id);
                    if k < i {
                        assert(shorter[k] == Some(id));
                        assert(shorter.contains(Some(id)));
                        assert(before.contains(id));
                    }
                }
                if before.contains(id) {
                    assert(shorter.contains(Some(id)));
                    let k = choose|k: int| 0 <= k < shorter.len() && shorter[k] == Some(id);
                    assert(longer[k] == Some(id));
                }
                if groups@[i as int] == Some(id) {
                    assert(longer[i as int] == Some(id));
                }
            }
        }
        i = i + 1;
    }
    assert(groups@.take(i as int) =~= groups@);
    ids
}

/// How many of some changes belong to a group.
fn count_group_rows(groups: &Vec<Option<Uuid>>, id: Uuid) -> (result: usize)
    ensures
        result == group_rows(groups@, id),
{
    let ghost wanted = |group: Option<Uuid>| group == Some(id);
    let mut count: usize = 0;
    let mut i: usize = 0;
    proof {
        reveal(Seq::filter);
        assert(groups@.take(0).filter(wanted).len() == 0);
    }
    while i < groups.len()
        invariant
            i <= groups.len(),
            wanted == (|group: Option<Uuid>| group == Some(id)),
            count == groups@.take(i as int).filter(wanted).len(),
            count <= i,
        decreases groups.len() - i,
    {
        proof {
            crate::sequences::lemma_filter_step(groups@, i as int, wanted);
        }
        if groups[i] == Some(id) {
            count = count + 1;
        }
        i = i + 1;
    }
    assert(groups@.take(i as int) =~= groups@);
    count
}

/// What is stored of a group: how many changes and bytes it has, and how many changes of
/// any group lie between its first and its last.
#[derive(Clone, Copy, Debug, PartialEq, Eq, Structural)]
pub struct GroupStats {
    pub group_id: Uuid,
    pub row_count: i64,
    pub payload_bytes: i64,
    pub span_row_count: i64,
}

/// Whether a stored group can be delivered with some changes: it is not too large, its
/// changes lie next to each other, and all of them are there.
pub open spec fn stored_group_check(
    groups: Seq<Option<Uuid>>,
    stats: GroupStats,
    limits: ChangeGroupLimits,
) -> Result<(), ItemRepositoryError> {
    if stats.row_count < 0 {
        Err(ItemRepositoryError::Internal)
    } else if stats.row_count > limits.rows || stats.payload_bytes > limits.payload_bytes {
        Err(ItemRepositoryError::DeltaGroupTooLarge)
    } else if group_rows(groups, stats.group_id) != stats.row_count || stats.span_row_count
        != stats.row_count {
        Err(ItemRepositoryError::Internal)
    } else {
        Ok(())
    }
}

/// Whether the groups of some changes can be delivered with these changes.
///
/// `groups` are the groups of the changes, `group_ids` the groups in increasing order,
/// and `stats` what is stored of these groups.
pub fn validate_persisted_delta_groups(
    groups: &Vec<Option<Uuid>>,
    group_ids: &Vec<Uuid>,
    stats: &Vec<GroupStats>,
    limits: ChangeGroupLimits,
) -> (result: Result<(), ItemRepositoryError>)
    ensures
        if group_ids@.len() == 0 {
            result is Ok
        } else if stats@.len() != group_ids@.len() {
            result == Err::<(), ItemRepositoryError>(ItemRepositoryError::Internal)
        } else {
            match result {
                Ok(_) => forall|k: int|
                    0 <= k < stats@.len() ==> stored_group_check(
                        groups@,
                        #[trigger] stats@[k],
                        limits,
                    ) is Ok,
                Err(error) => exists|k: int|
                    0 <= k < stats@.len() && stored_group_check(
                        groups@,
                        #[trigger] stats@[k],
                        limits,
                    ) == Err::<(), ItemRepositoryError>(error) && forall|j: int|
                        0 <= j < k ==> stored_group_check(groups@, #[trigger] stats@[j], limits)
                            is Ok,
            }
        },
{
    if group_ids.len() == 0 {
        return Ok(());
    }
    if stats.len() != group_ids.len() {
        return Err(ItemRepositoryError::Internal);
    }
    let mut i: usize = 0;
    while i < stats.len()
        invariant
            i <= stats.len(),
            group_ids@.len() > 0,
            stats@.len() == group_ids@.len(),
            forall|j: int|
                0 <= j < i ==> stored_group_check(groups@, #[trigger] stats@[j], limits) is Ok,
        decreases stats.len() - i,
    {
        let group: GroupStats = stats[i];
        let local: usize = count_group_rows(groups, group.group_id);
        if group.row_count < 0 {
            assert(stored_group_check(groups@, stats@[i as int], limits) == Err::<
                (),
                ItemRepositoryError,
            >(ItemRepositoryError::Internal));
            return Err(ItemRepositoryError::Internal);
        }
        if group.row_count > limits.rows || group.payload_bytes > limits.payload_bytes {
            assert(stored_group_check(groups@, stats@[i as int], limits) == Err::<
                (),
                ItemRepositoryError,
            >(ItemRepositoryError::DeltaGroupTooLarge));
            return Err(ItemRepositoryError::DeltaGroupTooLarge);
        }
        if local as i128 != group.row_count as i128 || group.span_row_count != group.row_count {
            assert(stored_group_check(groups@, stats@[i as int], limits) == Err::<
                (),
                ItemRepositoryError,
            >(ItemRepositoryError::Internal));
            return Err(ItemRepositoryError::Internal);
        }
        i = i + 1;
    }
    Ok(())
}

/// One change of the stream.
#[derive(Debug)]
pub enum DeltaChange {
    Upsert { item: Box<Item> },
    Tombstone { tombstone: ItemTombstone },
}

/// A part of the stream of changes.
#[derive(Debug)]
pub struct ItemDeltaPage {
    pub changes: Vec<DeltaChange>,
    pub watermark: u64,
    pub has_more: bool,
}

/// What a stored change holds, as far as it can be read.
#[derive(Debug)]
pub enum StoredPayload {
    Item(Box<Item>),
    Tombstone(ItemTombstone),
    Unreadable,
}

/// A change as it is stored.
#[derive(Debug)]
pub struct ItemChangeRow {
    pub sequence: i64,
    pub change_kind: String,
    pub payload: StoredPayload,
}

/// The change that a row holds.
pub open spec fn row_change(row: ItemChangeRow) -> Option<DeltaChange> {
    if row.sequence < 0 {
        None
    } else if row.change_kind@ == "upsert"@ {
        match row.payload {
            StoredPayload::Item(item) => Some(DeltaChange::Upsert { item }),
            _ => None,
        }
    } else if row.change_kind@ == "tombstone"@ {
        match row.payload {
            StoredPayload::Tombstone(tombstone) => Some(DeltaChange::Tombstone { tombstone }),
            _ => None,
        }
    } else {
        None
    }
}

/// The change that a row holds.
fn read_change(row: ItemChangeRow) -> (result: Option<DeltaChange>)
    ensures
        result == row_change(row),
{
    if row.sequence < 0 {
        return None;
    }
    if same_text(row.change_kind.as_str(), "upsert") {
        match row.payload {
            StoredPayload::Item(item) => Some(DeltaChange::Upsert { item }),
            _ => None,
        }
    } else if same_text(row.change_kind.as_str(), "tombstone") {
        match row.payload {
            StoredPayload::Tombstone(tombstone) => Some(DeltaChange::Tombstone { tombstone }),
            _ => None,
        }
    } else {
        None
    }
}

/// Whether a reader may go on behind `after`: not past the last change, and not in the
/// middle of a group.
pub open spec fn cursor_refused(
    after: u64,
    head: u64,
    first_group: Option<Uuid>,
    preceding_group: Option<Uuid>,
) -> Option<ItemRepositoryError> {
    if after > i64::MAX || head > i64::MAX {
        Some(ItemRepositoryError::Internal)
    } else if after > head || (first_group is Some && preceding_group == first_group) {
        Some(ItemRepositoryError::InvalidCursor)
    } else {
        None
    }
}

/// Whether a reader may go on behind `after`. `head` is the last change, `first_group`
/// the group of the first change behind `after`, and `preceding_group` that of the last
/// change up to it.
pub fn check_cursor(
    after: u64,
    head: u64,
    first_group: Option<Uuid>,
    preceding_group: Option<Uuid>,
) -> (result: Result<(), ItemRepositoryError>)
    ensures
        result == match cursor_refused(after, head, first_group, preceding_group) {
            Some(error) => Err::<(), ItemRepositoryError>(error),
            None => Ok(()),
        },
{
    if after > i64::MAX as u64 || head > i64::MAX as u64 {
        return Err(ItemRepositoryError::Internal);
    }
    if after > head || (first_group.is_some() && preceding_group == first_group) {
        return Err(ItemRepositoryError::InvalidCursor);
    }
    Ok(())
}

/// How many changes are read for a page: one more than it can hold.
pub fn delta_fetch_limit(page_size: usize) -> (result: Result<i64, ItemRepositoryError>)
    ensures
        match result {
            Ok(count) => count == page_size + 1,
            Err(error) => page_size >= i64::MAX && error == ItemRepositoryError::Internal,
        },
{
    if page_size as u64 >= i64::MAX as u64 {
        Err(ItemRepositoryError::Internal)
    } else {
        Ok(page_size as i64 + 1)
    }
}

/// A page of the stream of changes: the first `selected` of the rows behind `after`.
pub fn delta_page(after: u64, rows: Vec<ItemChangeRow>, selected: usize) -> (result: Result<
    ItemDeltaPage,
    ItemRepositoryError,
>)
    requires
        selected <= rows@.len(),
    ensures
        match result {
            Ok(page) => {
                &&& page.has_more == (rows@.len() > selected)
                &&& page.changes@.len() == selected
                &&& forall|k: int|
                    0 <= k < selected ==> Some(#[trigger] page.changes@[k]) == row_change(rows@[k])
                &&& page.watermark == if selected == 0 {
                    after as int
                } else {
                    rows@[selected - 1].sequence as int
                }
            },
            Err(error) => error == ItemRepositoryError::Internal && exists|k: int|
                0 <= k < selected && row_change(#[trigger] rows@[k]) is None,
        },
{
    let ghost all = rows@;
    let has_more: bool = rows.len() > selected;
    let mut remaining: Vec<ItemChangeRow> = rows;
    let mut changes: Vec<DeltaChange> = Vec::new();
    let mut watermark: u64 = after;
    let mut i: usize = 0;
    while i < selected
        invariant
            i <= selected,
            selected <= all.len(),
            rows@ == all,
            remaining@ == all.skip(i as int),
            changes@.len() == i,
            forall|k: int|
                0 <= k < i ==> Some(#[trigger] changes@[k]) == row_change(all[k]),
            watermark == if i == 0 {
                after as int
            } else {
                all[i - 1].sequence as int
            },
        decreases selected - i,
    {
        let row: ItemChangeRow = remaining.remove(0);
        assert(row == all[i as int]);
        assert(remaining@ =~= all.skip(i + 1));
        let sequence: i64 = row.sequence;
        match read_change(row) {
            Some(change) => {
                watermark = sequence as u64;
                changes.push(change);
            },
            None => {
                assert(row_change(all[i as int]) is None);
                return Err(ItemRepositoryError::Internal);
            },
        }
        i = i + 1;
    }
    Ok(ItemDeltaPage { changes, watermark, has_more })
}

/// A page never tears a group: every change that is stored of a group is in the page if
/// one of them is.
pub proof fn groups_are_delivered_whole(
    groups: Seq<Option<Uuid>>,
    stats: GroupStats,
    limits: ChangeGroupLimits,
)
    requires
        stored_group_check(groups, stats, limits) is Ok,
    ensures
        group_rows(groups, stats.group_id) == stats.row_count,
        stats.row_count <= limits.rows,
        stats.payload_bytes <= limits.payload_bytes,
{
}

} // verus!
