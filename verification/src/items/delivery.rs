//! That devices are told of every change, and of nothing else.
use vstd::prelude::*;

use crate::items::bootstrap::{
    decoded, expected_rows, manifest_bytes, manifest_row_sound, position_refusal,
    ItemBootstrapPosition, ManifestRow, SnapshotHeader,
};
use crate::items::completion::{
    counted_bytes, first_size_refusal, groups_pack, range_bytes, state_row_sound, stored_state_of,
    CompletionDeliveryMode, CompletionStateRow, ItemCompletionError,
};
use crate::items::deltas::{
    cursor_refused, group_check, group_rows, row_change, stored_group_check, ChangeGroupLimits,
    DeltaChange, GroupStats, ItemChangeRow, StoredPayload,
};
use crate::items::dependencies::{
    dependency_row, in_id_order, predecessor_exists, DependencyRow,
};
use crate::items::model::{ConstraintStrength, Dependency, Item, ItemRepositoryError};
use crate::time::{Instant, Uuid};

verus! {

/// A group of changes can be delivered whole exactly if it has changes, no more than are
/// allowed, and its bytes, with those that are kept free for each change, are not too many.
/// Only a group that is too large is told to be.
pub proof fn groups_are_delivered_within_limits(
    count: i64,
    payload_bytes: i64,
    reserve: i64,
    limits: ChangeGroupLimits,
)
    ensures
        group_check(count, payload_bytes, reserve, limits) is Ok <==> 0 < count <= limits.rows && 0
            <= payload_bytes && 0 <= reserve && payload_bytes + count * reserve
            <= limits.payload_bytes,
        match group_check(count, payload_bytes, reserve, limits) {
            Ok(_) => true,
            Err(ItemRepositoryError::DeltaGroupTooLarge) => count > limits.rows || payload_bytes
                + count * reserve > limits.payload_bytes,
            Err(ItemRepositoryError::Internal) => count <= 0 || payload_bytes < 0 || reserve < 0
                || payload_bytes + count * reserve > i64::MAX,
            Err(_) => false,
        },
{
}

/// The changes of a group are counted one by one.
pub proof fn changes_of_a_group_are_counted(
    groups: Seq<Option<Uuid>>,
    last: Option<Uuid>,
    id: Uuid,
)
    ensures
        group_rows(groups.push(last), id) == group_rows(groups, id) + (if last == Some(id) {
            1nat
        } else {
            0nat
        }),
        group_rows(Seq::empty(), id) == 0,
{
    reveal(Seq::filter);
    let more = groups.push(last);
    assert(more.drop_last() =~= groups);
    assert(more.last() == last);
    assert(Seq::<Option<Uuid>>::empty().filter(|group: Option<Uuid>| group == Some(id)).len() == 0);
}

/// A stored group is delivered exactly if it is within the limits, all of its changes are
/// there, and no change of another group lies between them.
pub proof fn stored_groups_are_whole(
    groups: Seq<Option<Uuid>>,
    stats: GroupStats,
    limits: ChangeGroupLimits,
)
    ensures
        stored_group_check(groups, stats, limits) is Ok <==> {
            &&& 0 <= stats.row_count <= limits.rows
            &&& stats.payload_bytes <= limits.payload_bytes
            &&& group_rows(groups, stats.group_id) == stats.row_count
            &&& stats.span_row_count == stats.row_count
        },
        stored_group_check(groups, stats, limits) == Err::<(), ItemRepositoryError>(
            ItemRepositoryError::DeltaGroupTooLarge,
        ) <==> stats.row_count >= 0 && (stats.row_count > limits.rows || stats.payload_bytes
            > limits.payload_bytes),
{
}

/// A stored change tells of an item that is there or of one that is gone, as its kind says,
/// and of nothing if the two do not agree.
pub proof fn stored_changes_tell_what_they_hold(row: ItemChangeRow)
    ensures
        match row_change(row) {
            Some(DeltaChange::Upsert { item }) => row.sequence >= 0 && row.change_kind@
                == "upsert"@ && row.payload == StoredPayload::Item(item),
            Some(DeltaChange::Tombstone { tombstone }) => row.sequence >= 0 && row.change_kind@
                == "tombstone"@ && row.payload == StoredPayload::Tombstone(tombstone),
            None => row.sequence < 0 || !(row.change_kind@ == "upsert"@ && row.payload is Item)
                && !(row.change_kind@ == "tombstone"@ && row.payload is Tombstone),
        },
{
    reveal_strlit("upsert");
    reveal_strlit("tombstone");
    assert("upsert"@.len() != "tombstone"@.len());
}

/// A reader may go on behind a change exactly if the stream has come so far, and no group
/// would be torn: the change and the one behind it are not of the same group.
pub proof fn readers_go_on_between_groups(
    after: u64,
    head: u64,
    first_group: Option<Uuid>,
    preceding_group: Option<Uuid>,
)
    requires
        head <= i64::MAX,
    ensures
        (cursor_refused(after, head, first_group, preceding_group) is None) <==> after <= head && (
        first_group is None || preceding_group is None || first_group->0 != preceding_group->0),
        after <= i64::MAX && cursor_refused(after, head, first_group, preceding_group) is Some
            ==> cursor_refused(after, head, first_group, preceding_group) == Some(
            ItemRepositoryError::InvalidCursor,
        ),
{
}

/// A change of a snapshot is delivered exactly if it is the change of the item and revision
/// that it stands under: an item that is there, or one that is gone.
pub proof fn snapshots_hold_the_changes_of_their_items(
    kind: Seq<char>,
    payload: StoredPayload,
    id: Uuid,
    revision: i64,
)
    ensures
        match decoded(kind, payload, id, revision) {
            Some(DeltaChange::Upsert { item }) => kind == "upsert"@ && payload
                == StoredPayload::Item(item) && item.id == id && item.revision == revision
                && item.deleted_at is None && revision > 0,
            Some(DeltaChange::Tombstone { tombstone }) => kind == "tombstone"@ && payload
                == StoredPayload::Tombstone(tombstone) && tombstone.id == id && tombstone.revision
                == revision && revision > 0,
            None => {
                ||| revision <= 0
                ||| id == 0
                ||| !(kind == "upsert"@ && payload is Item && payload->Item_0.id == id
                    && payload->Item_0.revision == revision && payload->Item_0.deleted_at is None)
                    && !(kind == "tombstone"@ && payload is Tombstone && payload->Tombstone_0.id
                    == id && payload->Tombstone_0.revision == revision)
            },
        },
{
    reveal_strlit("upsert");
    reveal_strlit("tombstone");
    assert("upsert"@.len() != "tombstone"@.len());
}

/// A snapshot is read on exactly while it lasts, from a place that has changes behind it, or
/// from the beginning of an empty one.
pub proof fn snapshots_are_read_while_they_last(
    header: Option<SnapshotHeader>,
    position: ItemBootstrapPosition,
    now: Instant,
)
    ensures
        (position_refusal(header, position, now) is None) <==> {
            &&& header is Some
            &&& now < header->0.expires_at
            &&& position.after < header->0.member_count || (position.after == 0
                && header->0.member_count == 0)
        },
        match position_refusal(header, position, now) {
            None => true,
            Some(ItemRepositoryError::BootstrapExpired) => header is None || header->0.expires_at
                <= now,
            Some(ItemRepositoryError::Internal) => header is Some && header->0.member_count < 0,
            Some(ItemRepositoryError::BootstrapCursorInvalid) => header is Some && position.after
                >= header->0.member_count,
            Some(_) => false,
        },
{
}

/// What is read behind a place of a snapshot is all that is left, or three hundred changes if
/// there are more.
pub proof fn snapshots_are_read_in_pages(total: usize, after: usize)
    requires
        after <= total,
    ensures
        expected_rows(total, after) <= 300,
        expected_rows(total, after) <= total - after,
        expected_rows(total, after) == 300 || expected_rows(total, after) == total - after,
{
}

/// The bytes of a snapshot are those of its changes, however it is cut in two, and the last
/// change of an item is part of it if it is stored and not too new.
pub proof fn bytes_of_a_snapshot_add_up(
    first: Seq<ManifestRow>,
    rest: Seq<ManifestRow>,
    row: ManifestRow,
    head: i64,
)
    ensures
        manifest_bytes(first + rest, (first + rest).len()) == manifest_bytes(first, first.len())
            + manifest_bytes(rest, rest.len()),
        row.payload_bytes is Some ==> manifest_bytes(seq![row], 1) == row.payload_bytes->0,
        manifest_row_sound(row, head) <==> row.sequence is Some && row.payload_bytes is Some
            && row.sequence->0 <= head,
    decreases rest.len(),
{
    let all = first + rest;
    assert(manifest_bytes(seq![row], 0) == 0);
    assert(manifest_bytes(seq![row], 1) == manifest_bytes(seq![row], 0) + (match seq![row][0].payload_bytes {
        Some(bytes) => bytes as nat,
        None => 0,
    }));
    if rest.len() == 0 {
        assert(all =~= first);
    } else {
        let less = rest.drop_last();
        bytes_of_a_snapshot_add_up(first, less, row, head);
        lemma_prefix(all, first + less, (first + less).len());
        lemma_prefix(rest, less, less.len());
        assert(all.last() == rest.last());
    }
}

proof fn lemma_prefix(rows: Seq<ManifestRow>, fewer: Seq<ManifestRow>, count: nat)
    requires
        count <= fewer.len() <= rows.len(),
        forall|k: int| 0 <= k < fewer.len() ==> rows[k] == fewer[k],
    ensures
        manifest_bytes(rows, count) == manifest_bytes(fewer, count),
    decreases count,
{
    if count > 0 {
        lemma_prefix(rows, fewer, (count - 1) as nat);
    }
}

/// The stored predecessor is the one that the item names: the same item and relation, as far
/// apart in seconds as in minutes, and as strong.
pub proof fn predecessors_are_stored_as_named(
    dependency: Dependency,
    ordinal: int,
    row: DependencyRow,
)
    requires
        0 <= ordinal,
        dependency_row(dependency, ordinal) == Some(row),
    ensures
        row.predecessor_item_id == dependency.item_id,
        row.relation == dependency.relation,
        row.lag_seconds == 60 * dependency.minimum_lag,
        row.hard == (dependency.strength == ConstraintStrength::Hard),
        row.soft_weight is Some == !row.hard,
        dependency.strength is Soft ==> row.soft_weight->0 == dependency.strength->weight,
        row.projection_ordinal == ordinal,
{
}

/// Two predecessors with the same row are the same, so no row can be read as two.
pub proof fn rows_tell_predecessors_apart(a: Dependency, b: Dependency, ordinal: int)
    requires
        dependency_row(a, ordinal) is Some,
        dependency_row(a, ordinal) == dependency_row(b, ordinal),
    ensures
        a == b,
{
}

/// A predecessor is there if the workspace has it or it is the item itself, and predecessors
/// stand in the order of their identifiers.
pub proof fn predecessors_are_looked_for_in_order(
    items: Map<Uuid, Item>,
    item_id: Uuid,
    dependencies: Seq<Dependency>,
    i: int,
    j: int,
)
    requires
        in_id_order(dependencies),
        0 <= i < j < dependencies.len(),
    ensures
        dependencies[i].item_id <= dependencies[j].item_id,
        predecessor_exists(items, item_id, dependencies[i].item_id) <==> items.contains_key(
            dependencies[i].item_id,
        ) || dependencies[i].item_id == item_id,
{
}

/// The bytes of changes add up, however they are cut, and a trial counts a kibibyte more for
/// each change than its delivery does.
pub proof fn bytes_of_changes_add_up(sizes: Seq<i64>, start: int, mid: int, end: int)
    requires
        0 <= start <= mid <= end <= sizes.len(),
    ensures
        range_bytes(sizes, CompletionDeliveryMode::Committed, start, end) == range_bytes(
            sizes,
            CompletionDeliveryMode::Committed,
            start,
            mid,
        ) + range_bytes(sizes, CompletionDeliveryMode::Committed, mid, end),
        range_bytes(sizes, CompletionDeliveryMode::Preview, start, end) == range_bytes(
            sizes,
            CompletionDeliveryMode::Committed,
            start,
            end,
        ) + 1_024 * (end - start),
        start < sizes.len() ==> range_bytes(
            sizes,
            CompletionDeliveryMode::Committed,
            start,
            start + 1,
        ) == sizes[start],
    decreases end - start,
{
    if start < sizes.len() {
        assert(range_bytes(sizes, CompletionDeliveryMode::Committed, start, start) == 0);
    }
    if start < end {
        if mid < end {
            bytes_of_changes_add_up(sizes, start, mid, end - 1);
        } else {
            bytes_of_changes_add_up(sizes, start, start, end - 1);
        }
    }
}

/// Changes can be delivered exactly if none of them is too large by itself, and none has a
/// negative size.
pub proof fn changes_are_refused_for_their_size(
    sizes: Seq<i64>,
    delivery: CompletionDeliveryMode,
    limits: ChangeGroupLimits,
    k: int,
)
    requires
        0 <= k,
    ensures
        (first_size_refusal(sizes, delivery, limits, k) is None) <==> forall|i: int|
            k <= i < sizes.len() ==> 0 <= #[trigger] sizes[i] && counted_bytes(sizes[i], delivery)
                <= limits.payload_bytes,
        match first_size_refusal(sizes, delivery, limits, k) {
            None => true,
            Some(ItemCompletionError::TooLarge) => exists|i: int|
                k <= i < sizes.len() && counted_bytes(#[trigger] sizes[i], delivery)
                    > limits.payload_bytes,
            Some(ItemCompletionError::Unavailable) => exists|i: int|
                k <= i < sizes.len() && (#[trigger] sizes[i]) < 0,
            Some(_) => false,
        },
    decreases sizes.len() - k,
{
    if k < sizes.len() {
        changes_are_refused_for_their_size(sizes, delivery, limits, k + 1);
        if first_size_refusal(sizes, delivery, limits, k) is None {
            assert forall|i: int| k <= i < sizes.len() implies 0 <= #[trigger] sizes[i]
                && counted_bytes(sizes[i], delivery) <= limits.payload_bytes by {}
        } else {
            assert(crate::items::completion::size_refusal(sizes[k], delivery, limits) is Some
                || first_size_refusal(sizes, delivery, limits, k + 1) is Some);
        }
    }
}

/// The groups of changes follow on each other without a gap: each begins where the one before
/// it ends, has at least one change and no more than are allowed, and the last one ends with
/// the last change.
pub proof fn groups_follow_on_each_other(
    sizes: Seq<i64>,
    delivery: CompletionDeliveryMode,
    limits: ChangeGroupLimits,
    starts: Seq<usize>,
    k: int,
)
    requires
        groups_pack(sizes, delivery, limits, starts),
        0 <= k < starts.len(),
    ensures
        starts[0] == 0,
        k + 1 < starts.len() ==> starts[k] < starts[k + 1] <= starts[k] + limits.rows,
        k + 1 < starts.len() ==> range_bytes(
            sizes,
            delivery,
            starts[k] as int,
            starts[k + 1] as int,
        ) <= limits.payload_bytes,
        k + 1 < starts.len() ==> starts[k + 1] == starts[k] + limits.rows || range_bytes(
            sizes,
            delivery,
            starts[k] as int,
            starts[k + 1] + 1,
        ) > limits.payload_bytes,
        k + 1 == starts.len() ==> starts[k] < sizes.len() <= starts[k] + limits.rows,
        k + 1 == starts.len() ==> range_bytes(
            sizes,
            delivery,
            starts[k] as int,
            sizes.len() as int,
        ) <= limits.payload_bytes,
{
    assert(crate::items::completion::group_fits(sizes, delivery, limits, starts, k));
    if k + 1 < starts.len() {
        assert(crate::items::completion::group_full(sizes, delivery, limits, starts, k));
    }
}

/// The state of an item is the last one that is stored for it, and a row is read only if it
/// holds the state that it says.
pub proof fn last_stored_state_counts(rows: Seq<CompletionStateRow>, id: Uuid, k: int)
    requires
        0 <= k < rows.len(),
        rows[k].item_id == id,
        forall|j: int| k < j < rows.len() ==> (#[trigger] rows[j]).item_id != id,
    ensures
        stored_state_of(rows, id, rows.len()) == rows[k].state,
        state_row_sound(rows[k]) ==> rows[k].state is Some && rows[k].state->0.item_id == id
            && rows[k].state->0.revision == rows[k].revision && rows[k].state->0.updated_at == Some(
            rows[k].updated_at,
        ),
{
    lemma_last_state(rows, id, k, rows.len());
}

proof fn lemma_last_state(rows: Seq<CompletionStateRow>, id: Uuid, k: int, count: nat)
    requires
        0 <= k < count <= rows.len(),
        rows[k].item_id == id,
        forall|j: int| k < j < rows.len() ==> (#[trigger] rows[j]).item_id != id,
    ensures
        stored_state_of(rows, id, count) == rows[k].state,
    decreases count,
{
    if k < count - 1 {
        assert(rows[count - 1].item_id != id);
        lemma_last_state(rows, id, k, (count - 1) as nat);
    }
}

} // verus!
