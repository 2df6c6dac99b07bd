//! The predecessors of an item, as the database stores them.
use std::collections::BTreeMap;

use vstd::prelude::*;

use crate::ids::sorted_ids;
use crate::items::model::{
    ConstraintStrength, Dependency, DependencyRelation, Item, ItemRepositoryError,
};
use crate::time::Uuid;

verus! {

/// A stored predecessor.
#[derive(Clone, Copy, Debug, PartialEq, Eq, Structural)]
pub struct DependencyRow {
    pub predecessor_item_id: Uuid,
    pub relation: DependencyRelation,
    pub lag_seconds: i32,
    pub hard: bool,
    pub soft_weight: Option<i32>,
    pub projection_ordinal: i32,
}

/// Whether the predecessors stand in the order of their identifiers.
pub open spec fn in_id_order(dependencies: Seq<Dependency>) -> bool {
    forall|i: int, j: int|
        0 <= i <= j < dependencies.len() ==> (#[trigger] dependencies[i]).item_id <= (
        #[trigger] dependencies[j]).item_id
}

/// The entries for one predecessor.
pub open spec fn entries_for(dependencies: Seq<Dependency>, id: Uuid) -> Seq<Dependency> {
    dependencies.filter(|dependency: Dependency| dependency.item_id == id)
}

/// The predecessors in the order of their identifiers. Of two entries for the same
/// predecessor the one that came first stays first.
pub fn sorted_dependencies(dependencies: &Vec<Dependency>) -> (result: Vec<Dependency>)
    ensures
        in_id_order(result@),
        forall|id: Uuid| #[trigger] entries_for(result@, id) == entries_for(dependencies@, id),
{
    let mut sorted: Vec<Dependency> = Vec::new();
    let mut i: usize = 0;
    assert(dependencies@.take(0) =~= sorted@);
    while i < dependencies.len()
        invariant
            i <= dependencies.len(),
            in_id_order(sorted@),
            forall|id: Uuid| #[trigger]
                entries_for(sorted@, id) == entries_for(dependencies@.take(i as int), id),
        decreases dependencies.len() - i,
    {
        let next = dependencies[i];
        let mut place: usize = sorted.len();
        while place > 0 && sorted[place - 1].item_id > next.item_id
            invariant
                place <= sorted.len(),
                forall|k: int|
                    place <= k < sorted@.len() ==> (#[trigger] sorted@[k]).item_id > next.item_id,
            decreases place,
        {
            place = place - 1;
        }
        let ghost before = sorted@;
        sorted.insert(place, next);
        proof {
            assert forall|id: Uuid| #[trigger] entries_for(sorted@, id) == entries_for(
                dependencies@.take(i + 1),
                id,
            ) by {
                let keep = |dependency: Dependency| dependency.item_id == id;
                let low = before.take(place as int);
                let high = before.skip(place as int);
                assert(sorted@ =~= low + seq![next] + high);
                assert(before =~= low + high);
                Seq::filter_distributes_over_add(low + seq![next], high, keep);
                Seq::filter_distributes_over_add(low, seq![next], keep);
                Seq::filter_distributes_over_add(low, high, keep);
                crate::sequences::lemma_filter_step(dependencies@, i as int, keep);
                crate::sequences::lemma_filter_one(next, keep);
                assert(entries_for(before, id) == entries_for(dependencies@.take(i as int), id));
                if keep(next) {
                    crate::sequences::lemma_filter_empty(high, keep);
                }
                assert(sorted@.filter(keep) =~= dependencies@.take(i + 1).filter(keep));
            }
            assert forall|a: int, b: int| 0 <= a <= b < sorted@.len() implies (
            #[trigger] sorted@[a]).item_id <= (#[trigger] sorted@[b]).item_id by {
                let old_a = if a < place { a } else { a - 1 };
                let old_b = if b < place { b } else { b - 1 };
                if a != place {
                    assert(sorted@[a] == before[old_a]);
                }
                if b != place {
                    assert(sorted@[b] == before[old_b]);
                }
                if a == place && b > place {
                    assert(before[old_b].item_id > next.item_id);
                }
                if a < place && b == place {
                    assert(before[a].item_id <= before[place - 1].item_id);
                }
            }
        }
        i = i + 1;
    }
    assert(dependencies@.take(i as int) =~= dependencies@);
    sorted
}

/// The row of a predecessor, if its lag and weight fit the columns.
pub open spec fn dependency_row(dependency: Dependency, ordinal: int) -> Option<DependencyRow> {
    let weight_fits = match dependency.strength {
        ConstraintStrength::Hard => true,
        ConstraintStrength::Soft { weight } => weight <= i32::MAX,
    };
    if weight_fits && dependency.minimum_lag * 60 <= i32::MAX && ordinal <= i32::MAX {
        Some(
            DependencyRow {
                predecessor_item_id: dependency.item_id,
                relation: dependency.relation,
                lag_seconds: (dependency.minimum_lag * 60) as i32,
                hard: dependency.strength is Hard,
                soft_weight: match dependency.strength {
                    ConstraintStrength::Hard => None,
                    ConstraintStrength::Soft { weight } => Some(weight as i32),
                },
                projection_ordinal: ordinal as i32,
            },
        )
    } else {
        None
    }
}

fn row_of(dependency: &Dependency, ordinal: usize) -> (result: Option<DependencyRow>)
    ensures
        result == dependency_row(*dependency, ordinal as int),
{
    let soft_weight: Option<i32> = match dependency.strength {
        ConstraintStrength::Hard => None,
        ConstraintStrength::Soft { weight } => {
            if weight > 0x7fff_ffff {
                return None;
            }
            Some(weight as i32)
        },
    };
    let hard: bool = match dependency.strength {
        ConstraintStrength::Hard => true,
        ConstraintStrength::Soft { .. } => false,
    };
    let lag: u64 = dependency.minimum_lag as u64 * 60;
    if lag > 0x7fff_ffff || ordinal > 0x7fff_ffff {
        return None;
    }
    Some(
        DependencyRow {
            predecessor_item_id: dependency.item_id,
            relation: dependency.relation,
            lag_seconds: lag as i32,
            hard,
            soft_weight,
            projection_ordinal: ordinal as i32,
        },
    )
}

/// The rows of predecessors that stand in the order of their identifiers, numbered
/// in that order.
pub fn dependency_rows(sorted: &Vec<Dependency>) -> (result: Result<
    Vec<DependencyRow>,
    ItemRepositoryError,
>)
    ensures
        match result {
            Ok(rows) => {
                &&& rows@.len() == sorted@.len()
                &&& forall|k: int|
                    0 <= k < sorted@.len() ==> dependency_row(#[trigger] sorted@[k], k) == Some(
                        rows@[k],
                    )
            },
            Err(error) => error == ItemRepositoryError::Internal && exists|k: int|
                0 <= k < sorted@.len() && dependency_row(#[trigger] sorted@[k], k) is None,
        },
{
    let mut rows: Vec<DependencyRow> = Vec::new();
    let mut i: usize = 0;
    while i < sorted.len()
        invariant
            i <= sorted.len(),
            rows@.len() == i,
            forall|k: int|
                0 <= k < i ==> dependency_row(#[trigger] sorted@[k], k) == Some(rows@[k]),
        decreases sorted.len() - i,
    {
        match row_of(&sorted[i], i) {
            Some(row) => {
                rows.push(row);
            },
            None => {
                assert(dependency_row(sorted@[i as int], i as int) is None);
                return Err(ItemRepositoryError::Internal);
            },
        }
        i = i + 1;
    }
    Ok(rows)
}

/// Whether a predecessor exists: in the workspace, or as the item itself.
pub open spec fn predecessor_exists(items: Map<Uuid, Item>, item_id: Uuid, id: Uuid) -> bool {
    items.contains_key(id) || id == item_id
}

/// Whether `id` is the first predecessor, by identifier, that does not exist.
pub open spec fn first_missing_predecessor(
    items: Map<Uuid, Item>,
    item_id: Uuid,
    dependencies: Seq<Dependency>,
    id: Uuid,
) -> bool {
    &&& exists|k: int| 0 <= k < dependencies.len() && (#[trigger] dependencies[k]).item_id == id
    &&& !predecessor_exists(items, item_id, id)
    &&& forall|k: int|
        0 <= k < dependencies.len() && (#[trigger] dependencies[k]).item_id < id
            ==> predecessor_exists(items, item_id, dependencies[k].item_id)
}

/// The first predecessor, by identifier, that does not exist.
pub fn missing_predecessor(
    items: &BTreeMap<Uuid, Item>,
    item_id: Uuid,
    dependencies: &Vec<Dependency>,
) -> (result: Option<Uuid>)
    ensures
        match result {
            Some(id) => first_missing_predecessor(items@, item_id, dependencies@, id),
            None => forall|k: int|
                0 <= k < dependencies@.len() ==> predecessor_exists(
                    items@,
                    item_id,
                    (#[trigger] dependencies@[k]).item_id,
                ),
        },
{
    let mut missing: Option<Uuid> = None;
    let mut i: usize = 0;
    while i < dependencies.len()
        invariant
            i <= dependencies.len(),
            match missing {
                Some(id) => {
                    &&& exists|k: int|
                        0 <= k < i && (#[trigger] dependencies@[k]).item_id == id
                    &&& !predecessor_exists(items@, item_id, id)
                    &&& forall|k: int|
                        0 <= k < i && (#[trigger] dependencies@[k]).item_id < id
                            ==> predecessor_exists(items@, item_id, dependencies@[k].item_id)
                },
                None => forall|k: int|
                    0 <= k < i ==> predecessor_exists(
                        items@,
                        item_id,
                        (#[trigger] dependencies@[k]).item_id,
                    ),
            },
        decreases dependencies.len() - i,
    {
        let id: Uuid = dependencies[i].item_id;
        let known: bool = items.contains_key(&id) || id == item_id;
        let earlier: bool = match missing {
            Some(found) => id < found,
            None => true,
        };
        assert(dependencies@[i as int].item_id == id);
        if !known && earlier {
            missing = Some(id);
        }
        i = i + 1;
    }
    missing
}

/// The items whose predecessors are replaced, in increasing order.
pub fn cleared_successors(successor_item_ids: &Vec<Uuid>) -> (result: Vec<Uuid>)
    ensures
        crate::ids::increasing(result@),
        forall|id: Uuid| result@.contains(id) <==> successor_item_ids@.contains(id),
{
    sorted_ids(successor_item_ids)
}

} // verus!
