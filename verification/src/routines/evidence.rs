//! Evidence: the present state of the items that occurrences were admitted from.
use std::collections::BTreeMap;

use vstd::prelude::*;

use crate::documents::routine_document;
use crate::hashing::{encoded_hash, hash_bytes, hash_text};
use crate::items::model::{copy_optional_json, Item, ItemKind, ItemStatus};
use crate::json::Json;
use crate::routines::model::{
    unsigned, OccurrenceLimits, RoutineOccurrenceError, RoutineOccurrenceManifest,
};
use crate::time::Uuid;

verus! {

/// The work that a session is on.
#[derive(Clone, Copy, Debug, PartialEq, Eq, Structural)]
pub struct RoutineOccurrenceWorkUnit {
    pub item_id: Uuid,
    pub occurrence_id: Uuid,
}

/// Whether an occurrence can be admitted with an item as it is.
pub open spec fn eligible(status: ItemStatus) -> bool {
    status == ItemStatus::Inbox || status == ItemStatus::Planned || status == ItemStatus::Blocked
}

/// Whether an occurrence can be admitted with an item as it is: one that is open, and not
/// being worked on.
pub fn source_eligible(item: &Item) -> (result: bool)
    ensures
        result == eligible(item.status),
{
    match item.status {
        ItemStatus::Inbox | ItemStatus::Planned | ItemStatus::Blocked => true,
        _ => false,
    }
}

/// The children of an item, in the order of the items.
pub open spec fn children_of(items: Seq<Item>, id: Uuid) -> Seq<Uuid>
    decreases items.len(),
{
    if items.len() == 0 {
        Seq::empty()
    } else {
        let before = children_of(items.drop_last(), id);
        if items.last().parent_id == Some(id) {
            before.push(items.last().id)
        } else {
            before
        }
    }
}

/// The place of the last item with an identifier.
pub open spec fn place_of(items: Seq<Item>, id: Uuid) -> Option<int>
    decreases items.len(),
{
    if items.len() == 0 {
        None
    } else if items.last().id == id {
        Some(items.len() - 1)
    } else {
        place_of(items.drop_last(), id)
    }
}

pub proof fn lemma_place(items: Seq<Item>, id: Uuid)
    ensures
        match place_of(items, id) {
            Some(k) => 0 <= k < items.len() && items[k].id == id,
            None => forall|k: int| 0 <= k < items.len() ==> (#[trigger] items[k]).id != id,
        },
    decreases items.len(),
{
    if items.len() > 0 {
        lemma_place(items.drop_last(), id);
        match place_of(items.drop_last(), id) {
            Some(k) => {
                assert(items.drop_last()[k] == items[k]);
            },
            None => {
                assert forall|k: int| 0 <= k < items.len() - 1 implies (#[trigger] items[k]).id
                    != id by {
                    assert(items.drop_last()[k] == items[k]);
                }
            },
        }
    }
}

/// Whether one piece of work comes before another: by its item, and then by its occurrence.
pub open spec fn unit_before(a: RoutineOccurrenceWorkUnit, b: RoutineOccurrenceWorkUnit) -> bool {
    a.item_id < b.item_id || (a.item_id == b.item_id && a.occurrence_id < b.occurrence_id)
}

/// Whether pieces of work are in order, so that none occurs twice.
pub open spec fn units_increasing(units: Seq<RoutineOccurrenceWorkUnit>) -> bool {
    forall|i: int, j: int|
        0 <= i < j < units.len() ==> unit_before(#[trigger] units[i], #[trigger] units[j])
}

/// Puts a piece of work in its place, unless it is there already.
fn insert_unit(units: &mut Vec<RoutineOccurrenceWorkUnit>, unit: RoutineOccurrenceWorkUnit)
    requires
        units_increasing(old(units)@),
    ensures
        units_increasing(final(units)@),
        forall|x: RoutineOccurrenceWorkUnit| #[trigger]
            final(units)@.contains(x) <==> old(units)@.contains(x) || x == unit,
{
    let mut i: usize = 0;
    while i < units.len() && (units[i].item_id < unit.item_id || (units[i].item_id == unit.item_id
        && units[i].occurrence_id < unit.occurrence_id))
        invariant
            i <= units.len(),
            units@ == old(units)@,
            forall|k: int| 0 <= k < i ==> unit_before(#[trigger] units@[k], unit),
        decreases units.len() - i,
    {
        i = i + 1;
    }
    if i < units.len() && units[i].item_id == unit.item_id && units[i].occurrence_id
        == unit.occurrence_id {
        assert(units@[i as int] == unit);
        return;
    }
    let ghost before = units@;
    units.insert(i, unit);
    proof {
        let after = units@;
        assert(forall|k: int| 0 <= k < i ==> after[k] == before[k]);
        assert(after[i as int] == unit);
        assert(forall|k: int| i < k < after.len() ==> after[k] == before[k - 1]);
        assert forall|a: int, b: int| 0 <= a < b < after.len() implies unit_before(
            #[trigger] after[a],
            #[trigger] after[b],
        ) by {
            if a == i {
                assert(unit_before(unit, before[i as int]));
                if b - 1 > i {
                    assert(unit_before(before[i as int], before[b - 1]));
                }
            } else if b == i {
                assert(unit_before(before[a], unit));
            } else {
                let low = if a < i { a } else { a - 1 };
                let high = if b < i { b } else { b - 1 };
                assert(unit_before(before[low], before[high]));
            }
        }
        assert forall|x: RoutineOccurrenceWorkUnit| #[trigger]
            after.contains(x) <==> before.contains(x) || x == unit by {
            if x == unit {
                assert(after[i as int] == x);
            } else if before.contains(x) {
                let k = choose|k: int| 0 <= k < before.len() && before[k] == x;
                if k < i {
                    assert(after[k] == x);
                } else {
                    assert(after[k + 1] == x);
                }
            } else if after.contains(x) {
                let k = choose|k: int| 0 <= k < after.len() && after[k] == x;
                if k < i {
                    assert(before[k] == x);
                } else if k > i {
                    assert(before[k - 1] == x);
                }
            }
        }
    }
}

/// The items of a workspace, found by their identifiers and their parents, and what is
/// being worked on, in order.
#[derive(Debug)]
pub struct CurrentEvidence {
    pub items: Vec<Item>,
    pub by_id: BTreeMap<Uuid, usize>,
    pub children: BTreeMap<Uuid, Vec<Uuid>>,
    pub execution_revision: u64,
    pub live_work_units: Vec<RoutineOccurrenceWorkUnit>,
}

/// The children that are kept for an item.
pub open spec fn kept_children(children: Map<Uuid, Vec<Uuid>>, id: Uuid) -> Seq<Uuid> {
    if children.contains_key(id) {
        children[id]@
    } else {
        Seq::empty()
    }
}

impl CurrentEvidence {
    /// Whether the items are found by their identifiers and their parents.
    pub open spec fn sound(self) -> bool {
        &&& forall|id: Uuid|
            {
                &&& #[trigger] self.by_id@.contains_key(id) == (place_of(self.items@, id) is Some)
                &&& self.by_id@.contains_key(id) ==> self.by_id@[id] as int == place_of(
                    self.items@,
                    id,
                )->0
            }
        &&& forall|id: Uuid| #[trigger]
            kept_children(self.children@, id) == children_of(self.items@, id)
    }

    /// Gathers the items of a workspace and the sessions that are under way. Several sessions
    /// on the same work count once, and a session without an occurrence is on no occurrence. It is an error if there are more
    /// sessions than an occurrence may have members.
    #[verifier::loop_isolation(false)]
    pub fn new(
        items: Vec<Item>,
        execution_revision: i64,
        sessions: &Vec<(Uuid, Option<Uuid>)>,
        limits: OccurrenceLimits,
    ) -> (result: Result<CurrentEvidence, RoutineOccurrenceError>)
        ensures
            match result {
                Ok(current) => {
                    &&& current.sound()
                    &&& current.items == items
                    &&& current.execution_revision == execution_revision
                    &&& units_increasing(current.live_work_units@)
                    &&& forall|unit: RoutineOccurrenceWorkUnit| #[trigger]
                        current.live_work_units@.contains(unit) <==> sessions@.contains(
                            (unit.item_id, Some(unit.occurrence_id)),
                        )
                    &&& sessions@.len() <= limits.members
                },
                Err(error) => if execution_revision < 0 {
                    error == RoutineOccurrenceError::Unavailable
                } else {
                    sessions@.len() > limits.members && error == RoutineOccurrenceError::TooLarge
                },
            },
    {
        let execution_revision: u64 = unsigned(execution_revision)?;
        if sessions.len() > limits.members {
            return Err(RoutineOccurrenceError::TooLarge);
        }
        let mut live_work_units: Vec<RoutineOccurrenceWorkUnit> = Vec::new();
        let mut i: usize = 0;
        while i < sessions.len()
            invariant
                i <= sessions@.len(),
                units_increasing(live_work_units@),
                forall|unit: RoutineOccurrenceWorkUnit| #[trigger]
                    live_work_units@.contains(unit) <==> sessions@.take(i as int).contains(
                        (unit.item_id, Some(unit.occurrence_id)),
                    ),
            decreases sessions.len() - i,
        {
            let ghost before = live_work_units@;
            let (item_id, occurrence) = sessions[i];
            let ghost row = sessions@[i as int];
            if let Some(occurrence_id) = occurrence {
                insert_unit(
                    &mut live_work_units,
                    RoutineOccurrenceWorkUnit { item_id, occurrence_id },
                );
            }
            proof {
                let shorter = sessions@.take(i as int);
                let longer = sessions@.take(i + 1);
                assert(longer =~= shorter.push(row));
                assert forall|unit: RoutineOccurrenceWorkUnit| #[trigger]
                    live_work_units@.contains(unit) <==> longer.contains(
                        (unit.item_id, Some(unit.occurrence_id)),
                    ) by {
                    let wanted = (unit.item_id, Some(unit.occurrence_id));
                    lemma_push_contains(shorter, row, wanted);
                    assert(before.contains(unit) <==> shorter.contains(wanted));
                }
            }
            i = i + 1;
        }
        assert(sessions@.take(i as int) =~= sessions@);
        let by_id: BTreeMap<Uuid, usize> = index_items(&items);
        let children: BTreeMap<Uuid, Vec<Uuid>> = index_children(&items);
        Ok(CurrentEvidence { items, by_id, children, execution_revision, live_work_units })
    }
}

proof fn lemma_push_contains<A>(s: Seq<A>, last: A, x: A)
    ensures
        s.push(last).contains(x) <==> s.contains(x) || last == x,
{
    if s.contains(x) {
        let k = choose|k: int| 0 <= k < s.len() && s[k] == x;
        assert(s.push(last)[k] == x);
    }
    if last == x {
        assert(s.push(last)[s.len() as int] == x);
    }
    if s.push(last).contains(x) {
        let k = choose|k: int| 0 <= k < s.push(last).len() && s.push(last)[k] == x;
        if k < s.len() {
            assert(s[k] == x);
        }
    }
}

/// The places of items by their identifiers.
fn index_items(items: &Vec<Item>) -> (result: BTreeMap<Uuid, usize>)
    ensures
        forall|id: Uuid|
            {
                &&& #[trigger] result@.contains_key(id) == (place_of(items@, id) is Some)
                &&& result@.contains_key(id) ==> result@[id] as int == place_of(items@, id)->0
            },
{
    let mut by_id: BTreeMap<Uuid, usize> = BTreeMap::new();
    let mut i: usize = 0;
    while i < items.len()
        invariant
            i <= items@.len(),
            forall|id: Uuid|
                {
                    &&& #[trigger] by_id@.contains_key(id) == (place_of(
                        items@.take(i as int),
                        id,
                    ) is Some)
                    &&& by_id@.contains_key(id) ==> by_id@[id] as int == place_of(
                        items@.take(i as int),
                        id,
                    )->0
                },
        decreases items.len() - i,
    {
        by_id.insert(items[i].id, i);
        proof {
            assert(items@.take(i + 1).drop_last() =~= items@.take(i as int));
            assert(items@.take(i + 1).last() == items@[i as int]);
        }
        i = i + 1;
    }
    assert(items@.take(i as int) =~= items@);
    by_id
}

/// The children of items by their parents.
fn index_children(items: &Vec<Item>) -> (result: BTreeMap<Uuid, Vec<Uuid>>)
    ensures
        forall|id: Uuid| #[trigger] kept_children(result@, id) == children_of(items@, id),
{
    let mut children: BTreeMap<Uuid, Vec<Uuid>> = BTreeMap::new();
    let mut i: usize = 0;
    while i < items.len()
        invariant
            i <= items@.len(),
            forall|id: Uuid| #[trigger]
                kept_children(children@, id) == children_of(items@.take(i as int), id),
        decreases items.len() - i,
    {
        let ghost before = children@;
        proof {
            assert(items@.take(i + 1).drop_last() =~= items@.take(i as int));
            assert(items@.take(i + 1).last() == items@[i as int]);
        }
        if let Some(parent) = items[i].parent_id {
            let mut siblings: Vec<Uuid> = match children.remove(&parent) {
                Some(siblings) => siblings,
                None => Vec::new(),
            };
            assert(siblings@ =~= kept_children(before, parent));
            siblings.push(items[i].id);
            children.insert(parent, siblings);
            proof {
                assert forall|id: Uuid| #[trigger]
                    kept_children(children@, id) == children_of(items@.take(i + 1), id) by {
                    assert(kept_children(before, id) == children_of(items@.take(i as int), id));
                    if id != parent {
                        assert(kept_children(children@, id) =~= kept_children(before, id));
                    }
                }
            }
        } else {
            proof {
                assert forall|id: Uuid| #[trigger]
                    kept_children(children@, id) == children_of(items@.take(i + 1), id) by {
                    assert(kept_children(before, id) == children_of(items@.take(i as int), id));
                }
            }
        }
        i = i + 1;
    }
    assert(items@.take(i as int) =~= items@);
    children
}

/// The items that a walk from an item down to its children comes to, in the order in
/// which it comes to them: the last of those that are pending comes next, and its
/// children become pending. The walk ends if it comes to an item twice, or to more than
/// `limit` items.
pub open spec fn walk(
    items: Seq<Item>,
    pending: Seq<Uuid>,
    visited: Seq<Uuid>,
    limit: nat,
) -> Result<Seq<Uuid>, RoutineOccurrenceError>
    decreases limit - visited.len(),
{
    if pending.len() == 0 {
        Ok(visited)
    } else if visited.contains(pending.last()) {
        Err(RoutineOccurrenceError::Invalid)
    } else if visited.len() >= limit {
        Err(RoutineOccurrenceError::TooLarge)
    } else {
        walk(
            items,
            pending.drop_last() + children_of(items, pending.last()),
            visited.push(pending.last()),
            limit,
        )
    }
}

/// The items of the subtree below an item, itself among them.
pub open spec fn subtree_of(items: Seq<Item>, root_id: Uuid, limit: nat) -> Result<
    Seq<Uuid>,
    RoutineOccurrenceError,
> {
    if place_of(items, root_id) is None {
        Err(RoutineOccurrenceError::OccurrenceMissing)
    } else {
        walk(items, seq![root_id], Seq::empty(), limit)
    }
}

/// Whether members are the items with these identifiers, each once and in the order of
/// the identifiers.
pub open spec fn members_are(items: Seq<Item>, ids: Seq<Uuid>, members: Seq<&Item>) -> bool {
    &&& forall|i: int, j: int|
        0 <= i < j < members.len() ==> (#[trigger] members[i]).id < (#[trigger] members[j]).id
    &&& forall|k: int|
        0 <= k < members.len() ==> ids.contains((#[trigger] members[k]).id) && place_of(
            items,
            members[k].id,
        ) is Some && *members[k] == items[place_of(items, members[k].id)->0]
    &&& forall|id: Uuid| #[trigger]
        ids.contains(id) ==> exists|k: int| 0 <= k < members.len() && (#[trigger] members[k]).id
            == id
}

/// Whether every identifier is that of an item.
spec fn all_found(items: Seq<Item>, ids: Seq<Uuid>) -> bool {
    forall|k: int| 0 <= k < ids.len() ==> place_of(items, #[trigger] ids[k]) is Some
}

proof fn lemma_children_found(items: Seq<Item>, id: Uuid)
    ensures
        all_found(items, children_of(items, id)),
    decreases items.len(),
{
    if items.len() > 0 {
        let shorter = items.drop_last();
        lemma_children_found(shorter, id);
        let children = children_of(items, id);
        assert forall|k: int| 0 <= k < children.len() implies place_of(
            items,
            #[trigger] children[k],
        ) is Some by {
            if k < children_of(shorter, id).len() {
                assert(children[k] == children_of(shorter, id)[k]);
                assert(place_of(shorter, children_of(shorter, id)[k]) is Some);
            }
        }
    }
}

/// The identifiers of a set, in order.
fn ids_in_order(set: &BTreeMap<Uuid, ()>) -> (result: Vec<Uuid>)
    ensures
        crate::ids::increasing(result@),
        forall|id: Uuid| #[trigger] result@.contains(id) <==> set@.contains_key(id),
{
    let mut ids: Vec<Uuid> = Vec::new();
    let entries = set.iter();
    let ghost listed = vstd::std_specs::iter::IteratorSpec::remaining(&entries);
    let ghost keys = listed.map_values(|kv: (&Uuid, &())| *kv.0);
    proof {
        assert(vstd::std_specs::btree::increasing_seq(keys));
        assert forall|i: int, j: int| 0 <= i < j < keys.len() implies keys[i] < keys[j] by {
            assert(vstd::std_specs::cmp::OrdSpec::cmp_spec(&keys[i], &keys[j]) is Less);
        }
    }
    for entry in it: set.iter()
        invariant
            it.seq() == vstd::std_specs::iter::IteratorSpec::remaining(
                &vstd::std_specs::btree::spec_btree_map_iter(set),
            ),
            ids@.len() == it.index(),
            forall|k: int| 0 <= k < ids@.len() ==> #[trigger] ids@[k] == *it.seq()[k].0,
    {
        ids.push(*entry.0);
    }
    proof {
        assert(ids@ =~= keys);
        assert forall|id: Uuid| #[trigger] ids@.contains(id) <==> set@.contains_key(id) by {
            if set@.contains_key(id) {
                assert(listed.contains((&id, &set@[id])));
                let k = choose|k: int| 0 <= k < listed.len() && listed[k] == (&id, &set@[id]);
                assert(ids@[k] == id);
            }
            if ids@.contains(id) {
                let k = choose|k: int| 0 <= k < ids@.len() && ids@[k] == id;
                assert(set@.contains_key(*listed[k].0));
            }
        }
    }
    ids
}

impl CurrentEvidence {
    /// The items of the subtree below an item, itself among them, in the order of their
    /// identifiers.
    pub fn subtree(&self, root_id: Uuid, limits: OccurrenceLimits) -> (result: Result<
        Vec<&Item>,
        RoutineOccurrenceError,
    >)
        requires
            self.sound(),
        ensures
            match subtree_of(self.items@, root_id, limits.members as nat) {
                Ok(ids) => result matches Ok(members) && members_are(self.items@, ids, members@),
                Err(refusal) => result matches Err(error) && error == refusal,
            },
    {
        if !self.by_id.contains_key(&root_id) {
            return Err(RoutineOccurrenceError::OccurrenceMissing);
        }
        let ghost all = self.items@;
        let mut selected: BTreeMap<Uuid, ()> = BTreeMap::new();
        let mut pending: Vec<Uuid> = Vec::new();
        pending.push(root_id);
        let ghost mut visited: Seq<Uuid> = Seq::empty();
        assert(pending@ =~= seq![root_id]);
        while pending.len() > 0
            invariant
                self.sound(),
                all == self.items@,
                place_of(all, root_id) is Some,
                walk(all, pending@, visited, limits.members as nat) == walk(
                    all,
                    seq![root_id],
                    Seq::empty(),
                    limits.members as nat,
                ),
                visited.no_duplicates(),
                selected@.dom() == visited.to_set(),
                visited.len() <= limits.members,
                all_found(all, pending@),
                all_found(all, visited),
            decreases limits.members - visited.len(), pending@.len(),
        {
            let ghost before = pending@;
            let id: Uuid = match pending.pop() {
                Some(id) => id,
                None => root_id,
            };
            assert(id == before.last());
            assert(place_of(all, before[before.len() - 1]) is Some);
            proof {
                visited.unique_seq_to_set();
                assert(visited.to_set().contains(id) <==> visited.contains(id));
            }
            if selected.insert(id, ()).is_some() {
                return Err(RoutineOccurrenceError::Invalid);
            }
            if selected.len() > limits.members {
                return Err(RoutineOccurrenceError::TooLarge);
            }
            proof {
                let longer = visited.push(id);
                assert(selected@.dom() =~= longer.to_set()) by {
                    assert forall|x: Uuid| selected@.dom().contains(x) <==> longer.to_set().contains(x) by {
                        lemma_push_contains(visited, id, x);
                        assert(visited.to_set().contains(x) <==> visited.contains(x));
                        assert(longer.to_set().contains(x) <==> longer.contains(x));
                    }
                }
                visited = longer;
                assert(all_found(all, visited));
                lemma_children_found(all, id);
            }
            if let Some(children) = self.children.get(&id) {
                let mut k: usize = 0;
                let ghost rest = pending@;
                while k < children.len()
                    invariant
                        k <= children@.len(),
                        pending@ == rest + children@.take(k as int),
                    decreases children.len() - k,
                {
                    pending.push(children[k]);
                    k = k + 1;
                    assert(pending@ =~= rest + children@.take(k as int));
                }
                assert(children@.take(k as int) =~= children@);
            }
            proof {
                assert(kept_children(self.children@, id) == children_of(all, id));
                assert(pending@ =~= before.drop_last() + children_of(all, id));
                assert forall|k: int| 0 <= k < pending@.len() implies place_of(
                    all,
                    #[trigger] pending@[k],
                ) is Some by {
                    if k < before.len() - 1 {
                        assert(pending@[k] == before[k]);
                    } else {
                        assert(pending@[k] == children_of(all, id)[k - (before.len() - 1)]);
                    }
                }
            }
        }
        let ids: Vec<Uuid> = ids_in_order(&selected);
        proof {
            assert forall|id: Uuid| #[trigger] ids@.contains(id) <==> visited.contains(id) by {
                assert(visited.to_set().contains(id) <==> visited.contains(id));
            }
        }
        Ok(self.members(&ids, Ghost(visited)))
    }

    /// The items with these identifiers.
    fn members(&self, ids: &Vec<Uuid>, Ghost(visited): Ghost<Seq<Uuid>>) -> (result: Vec<&Item>)
        requires
            self.sound(),
            crate::ids::increasing(ids@),
            forall|id: Uuid| #[trigger] ids@.contains(id) <==> visited.contains(id),
            all_found(self.items@, visited),
        ensures
            members_are(self.items@, visited, result@),
    {
        let mut members: Vec<&Item> = Vec::new();
        let mut i: usize = 0;
        while i < ids.len()
            invariant
                i <= ids@.len(),
                self.sound(),
                forall|id: Uuid| #[trigger] ids@.contains(id) <==> visited.contains(id),
                all_found(self.items@, visited),
                members@.len() == i,
                forall|k: int|
                    0 <= k < i ==> (#[trigger] members@[k]).id == ids@[k] && place_of(
                        self.items@,
                        ids@[k],
                    ) is Some && *members@[k] == self.items@[place_of(self.items@, ids@[k])->0],
            decreases ids.len() - i,
        {
            let id: Uuid = ids[i];
            proof {
                assert(ids@.contains(ids@[i as int]));
                let k = choose|k: int| 0 <= k < visited.len() && visited[k] == id;
                assert(place_of(self.items@, visited[k]) is Some);
                lemma_place(self.items@, id);
                assert(self.by_id@.contains_key(id));
            }
            match self.by_id.get(&id) {
                Some(place) => {
                    members.push(&self.items[*place]);
                },
                None => {},
            }
            i = i + 1;
        }
        proof {
            assert forall|k: int| 0 <= k < members@.len() implies visited.contains(
                (#[trigger] members@[k]).id,
            ) && place_of(self.items@, members@[k].id) is Some by {
                assert(ids@.contains(ids@[k]));
            }
            assert forall|id: Uuid| #[trigger] visited.contains(id) implies exists|k: int|
                0 <= k < members@.len() && (#[trigger] members@[k]).id == id by {
                assert(ids@.contains(id));
                let k = choose|k: int| 0 <= k < ids@.len() && ids@[k] == id;
                assert(members@[k].id == id);
            }
        }
        members
    }
}

/// Whether every item of a walk is the root or a child of one before it.
pub open spec fn grows_from(items: Seq<Item>, root_id: Uuid, visited: Seq<Uuid>) -> bool {
    forall|i: int|
        0 <= i < visited.len() ==> (#[trigger] visited[i]) == root_id || exists|j: int|
            0 <= j < i && children_of(items, #[trigger] visited[j]).contains(visited[i])
}

/// Whether what is pending is the root or a child of an item of the walk.
spec fn pends_from(
    items: Seq<Item>,
    root_id: Uuid,
    pending: Seq<Uuid>,
    visited: Seq<Uuid>,
) -> bool {
    forall|i: int|
        0 <= i < pending.len() ==> (#[trigger] pending[i]) == root_id || exists|j: int|
            0 <= j < visited.len() && children_of(items, #[trigger] visited[j]).contains(pending[i])
}

/// Whether the children of the items of a walk are in it, or pending.
spec fn closed_with(items: Seq<Item>, pending: Seq<Uuid>, visited: Seq<Uuid>) -> bool {
    forall|i: int, child: Uuid|
        0 <= i < visited.len() && #[trigger] children_of(items, visited[i]).contains(child)
            ==> visited.contains(child) || pending.contains(child)
}

proof fn lemma_walk(
    items: Seq<Item>,
    root_id: Uuid,
    pending: Seq<Uuid>,
    visited: Seq<Uuid>,
    limit: nat,
)
    requires
        walk(items, pending, visited, limit) is Ok,
        visited.no_duplicates(),
        grows_from(items, root_id, visited),
        pends_from(items, root_id, pending, visited),
        closed_with(items, pending, visited),
        visited.contains(root_id) || pending.contains(root_id),
        visited.len() <= limit,
    ensures
        ({
            let found = walk(items, pending, visited, limit)->Ok_0;
            &&& found.no_duplicates()
            &&& found.len() <= limit
            &&& found.contains(root_id)
            &&& grows_from(items, root_id, found)
            &&& closed_with(items, Seq::empty(), found)
        }),
    decreases limit - visited.len(),
{
    if pending.len() == 0 {
        assert(pending =~= Seq::<Uuid>::empty());
    } else {
        let id = pending.last();
        let rest = pending.drop_last();
        let children = children_of(items, id);
        let later = rest + children;
        let longer = visited.push(id);
        assert forall|i: int| 0 <= i < longer.len() implies (#[trigger] longer[i]) == root_id
            || exists|j: int|
            0 <= j < i && children_of(items, #[trigger] longer[j]).contains(longer[i]) by {
            if i < visited.len() {
                assert(longer[i] == visited[i]);
                if visited[i] != root_id {
                    let j = choose|j: int|
                        0 <= j < i && children_of(items, #[trigger] visited[j]).contains(
                            visited[i],
                        );
                    assert(longer[j] == visited[j]);
                }
            } else {
                assert(pending[pending.len() - 1] == id);
                if id != root_id {
                    let j = choose|j: int|
                        0 <= j < visited.len() && children_of(
                            items,
                            #[trigger] visited[j],
                        ).contains(id);
                    assert(longer[j] == visited[j]);
                }
            }
        }
        assert forall|i: int| 0 <= i < later.len() implies (#[trigger] later[i]) == root_id
            || exists|j: int|
            0 <= j < longer.len() && children_of(items, #[trigger] longer[j]).contains(
                later[i],
            ) by {
            if i < rest.len() {
                assert(later[i] == pending[i]);
                if pending[i] != root_id {
                    let j = choose|j: int|
                        0 <= j < visited.len() && children_of(
                            items,
                            #[trigger] visited[j],
                        ).contains(pending[i]);
                    assert(longer[j] == visited[j]);
                }
            } else {
                assert(later[i] == children[i - rest.len()]);
                assert(longer[visited.len() as int] == id);
                assert(children_of(items, longer[visited.len() as int]).contains(later[i]));
            }
        }
        assert forall|i: int, child: Uuid|
            0 <= i < longer.len() && #[trigger] children_of(items, longer[i]).contains(
                child,
            ) implies longer.contains(child) || later.contains(child) by {
            lemma_push_contains(visited, id, child);
            if i < visited.len() {
                assert(longer[i] == visited[i]);
                assert(children_of(items, visited[i]).contains(child));
                if pending.contains(child) {
                    lemma_split_contains(pending, child);
                    if rest.contains(child) {
                        let k = choose|k: int| 0 <= k < rest.len() && rest[k] == child;
                        assert(later[k] == child);
                    }
                }
            } else {
                let k = choose|k: int| 0 <= k < children.len() && children[k] == child;
                assert(later[rest.len() + k] == child);
            }
        }
        lemma_push_contains(visited, id, root_id);
        if pending.contains(root_id) {
            lemma_split_contains(pending, root_id);
            if rest.contains(root_id) {
                let k = choose|k: int| 0 <= k < rest.len() && rest[k] == root_id;
                assert(later[k] == root_id);
            }
        }
        lemma_walk(items, root_id, later, longer, limit);
    }
}

proof fn lemma_split_contains(s: Seq<Uuid>, x: Uuid)
    requires
        s.len() > 0,
        s.contains(x),
    ensures
        s.drop_last().contains(x) || s.last() == x,
{
    let k = choose|k: int| 0 <= k < s.len() && s[k] == x;
    if k < s.len() - 1 {
        assert(s.drop_last()[k] == x);
    }
}

/// The subtree below an item holds exactly that item and what descends from it, each once
/// and no more than are allowed: the item is in it, the children of every member are, and
/// every other member is a child of one that was found before it.
pub proof fn subtree_holds_what_descends(items: Seq<Item>, root_id: Uuid, limit: nat)
    requires
        subtree_of(items, root_id, limit) is Ok,
    ensures
        ({
            let found = subtree_of(items, root_id, limit)->Ok_0;
            &&& found.no_duplicates()
            &&& found.len() <= limit
            &&& found.contains(root_id)
            &&& grows_from(items, root_id, found)
            &&& forall|id: Uuid, child: Uuid|
                found.contains(id) && #[trigger] children_of(items, id).contains(child)
                    ==> found.contains(child)
        }),
{
    let start = seq![root_id];
    assert(start[0] == root_id);
    lemma_walk(items, root_id, start, Seq::empty(), limit);
    let found = subtree_of(items, root_id, limit)->Ok_0;
    assert forall|id: Uuid, child: Uuid|
        found.contains(id) && #[trigger] children_of(items, id).contains(
            child,
        ) implies found.contains(child) by {
        let i = choose|i: int| 0 <= i < found.len() && found[i] == id;
        assert(children_of(items, found[i]).contains(child));
    }
}

/// What a member contributes to the definition of a routine.
#[derive(Debug)]
pub struct MemberDefinition {
    pub item_id: Uuid,
    /// The parent within the routine; the root has none.
    pub parent_id: Option<Uuid>,
    pub kind: ItemKind,
    pub recurrence: Option<Json>,
    pub timezone_name: String,
    pub routine_ordered: bool,
    pub sibling_order: u32,
}

/// What makes a routine the one that it is. Titles, notes, estimates and progress are no
/// part of it.
#[derive(Debug)]
pub struct RoutineDefinition {
    pub root_id: Uuid,
    pub root_parent_id: Option<Uuid>,
    pub recurrence: Option<Json>,
    pub timezone_name: String,
    pub members: Vec<MemberDefinition>,
}

/// Whether an item asks for its children in order.
pub open spec fn asks_for_order(item: Item) -> bool {
    item.constraints.member("routine_ordered"@) == Some(Json::Bool(true))
}

/// Whether this is what an item contributes to the definition of a routine.
pub open spec fn defines_member(item: Item, root_id: Uuid, member: MemberDefinition) -> bool {
    &&& member.item_id == item.id
    &&& member.parent_id == (if item.id == root_id {
        None::<Uuid>
    } else {
        item.parent_id
    })
    &&& member.kind == item.kind
    &&& crate::json::optional_json_same(item.recurrence, member.recurrence)
    &&& member.timezone_name@ == item.timezone_name@
    &&& member.routine_ordered == asks_for_order(item)
    &&& member.sibling_order == item.sibling_order
}

/// Whether an item can be the root of a routine that recurs.
pub open spec fn is_routine(item: Item) -> bool {
    (item.kind == ItemKind::Task || item.kind == ItemKind::Routine) && item.recurrence is Some
}

/// Whether an item can be the root of a routine that recurs.
pub fn recurs_as_routine(item: &Item) -> (result: bool)
    ensures
        result == is_routine(*item),
{
    item.recurrence.is_some() && match item.kind {
        ItemKind::Task | ItemKind::Routine => true,
        _ => false,
    }
}

/// The place of the first item with an identifier.
pub open spec fn first_place(subtree: Seq<&Item>, root_id: Uuid, k: int) -> Option<int>
    decreases subtree.len() - k,
{
    if k < 0 || k >= subtree.len() {
        None
    } else if subtree[k].id == root_id {
        Some(k)
    } else {
        first_place(subtree, root_id, k + 1)
    }
}

/// What an item contributes to the definition of a routine.
fn member_definition(item: &Item, root_id: Uuid) -> (result: MemberDefinition)
    ensures
        defines_member(*item, root_id, result),
{
    let routine_ordered: bool = match item.constraints.get("routine_ordered") {
        Some(value) => match value.as_bool() {
            Some(ordered) => ordered,
            None => false,
        },
        None => false,
    };
    MemberDefinition {
        item_id: item.id,
        parent_id: if item.id == root_id {
            None
        } else {
            item.parent_id
        },
        kind: item.kind,
        recurrence: copy_optional_json(&item.recurrence),
        timezone_name: item.timezone_name.clone(),
        routine_ordered,
        sibling_order: item.sibling_order,
    }
}

/// Whether this is the definition of the routine with a root and these members, or why there
/// is none.
pub open spec fn defines_routine(
    subtree: Seq<&Item>,
    root_id: Uuid,
    result: Result<RoutineDefinition, RoutineOccurrenceError>,
) -> bool {
    match first_place(subtree, root_id, 0) {
        None => result matches Err(error) && error == RoutineOccurrenceError::OccurrenceMissing,
        Some(place) => {
            let root = *subtree[place];
            if !is_routine(root) {
                result matches Err(error) && error == RoutineOccurrenceError::SourceIneligible
            } else {
                &&& result matches Ok(definition)
                &&& definition.root_id == root_id
                &&& definition.root_parent_id == root.parent_id
                &&& crate::json::optional_json_same(root.recurrence, definition.recurrence)
                &&& definition.timezone_name@ == root.timezone_name@
                &&& definition.members@.len() == subtree.len()
                &&& forall|k: int|
                    0 <= k < subtree.len() ==> defines_member(
                        *subtree[k],
                        root_id,
                        #[trigger] definition.members@[k],
                    )
            }
        },
    }
}

/// The definition of the routine with this root and these members.
pub fn routine_definition(subtree: &Vec<&Item>, root_id: Uuid) -> (result: Result<
    RoutineDefinition,
    RoutineOccurrenceError,
>)
    ensures
        defines_routine(subtree@, root_id, result),
{
    let mut place: usize = 0;
    while place < subtree.len() && subtree[place].id != root_id
        invariant
            place <= subtree@.len(),
            first_place(subtree@, root_id, 0) == first_place(subtree@, root_id, place as int),
        decreases subtree.len() - place,
    {
        place = place + 1;
    }
    if place == subtree.len() {
        return Err(RoutineOccurrenceError::OccurrenceMissing);
    }
    let root: &Item = subtree[place];
    if !recurs_as_routine(root) {
        return Err(RoutineOccurrenceError::SourceIneligible);
    }
    let mut members: Vec<MemberDefinition> = Vec::new();
    let mut i: usize = 0;
    while i < subtree.len()
        invariant
            i <= subtree@.len(),
            members@.len() == i,
            forall|k: int|
                0 <= k < i ==> defines_member(*subtree@[k], root_id, #[trigger] members@[k]),
        decreases subtree.len() - i,
    {
        members.push(member_definition(subtree[i], root_id));
        i = i + 1;
    }
    Ok(
        RoutineDefinition {
            root_id,
            root_parent_id: root.parent_id,
            recurrence: copy_optional_json(&root.recurrence),
            timezone_name: root.timezone_name.clone(),
            members,
        },
    )
}

/// Whether this is the document of the routine with a root and these members, or why there
/// is none.
pub open spec fn documents_subtree(
    subtree: Seq<&Item>,
    root_id: Uuid,
    result: Result<Json, RoutineOccurrenceError>,
) -> bool {
    match result {
        Ok(document) => exists|definition: RoutineDefinition|
            {
                &&& defines_routine(subtree, root_id, Ok(definition))
                &&& #[trigger] crate::documents::documents_routine(definition, document)
            },
        Err(error) => defines_routine(subtree, root_id, Err(error)),
    }
}

impl CurrentEvidence {
    /// The definition of a routine as it is now, as the document that is hashed.
    pub fn definition(&self, root_id: Uuid, limits: OccurrenceLimits) -> (result: Result<
        Json,
        RoutineOccurrenceError,
    >)
        requires
            self.sound(),
        ensures
            match subtree_of(self.items@, root_id, limits.members as nat) {
                Ok(ids) => exists|members: Seq<&Item>|
                    {
                        &&& #[trigger] members_are(self.items@, ids, members)
                        &&& documents_subtree(members, root_id, result)
                    },
                Err(error) => result matches Err(given) && given == error,
            },
    {
        let members: Vec<&Item> = self.subtree(root_id, limits)?;
        let definition: RoutineDefinition = routine_definition(&members, root_id)?;
        let document: Json = routine_document(&definition);
        assert(crate::documents::documents_routine(definition, document));
        Ok(document)
    }
}

/// The hash of the definition of a routine, from its document.
pub fn routine_definition_hash(document: &Vec<u8>) -> (result: String)
    ensures
        result@ == crate::hashing::prefixed_text(crate::outside::sha256_of(document@)),
{
    encoded_hash(hash_bytes(document))
}

/// The hash that stands for a definition that there is none of, or none any more.
pub open spec fn unavailable_definition() -> Seq<char> {
    crate::hashing::prefixed_text(
        crate::outside::sha256_of(
            vstd::utf8::encode_utf8("dayweave.routine-definition.unavailable.v1"@),
        ),
    )
}

/// What is known of an item that an occurrence was admitted with.
#[derive(Clone, Copy, Debug, PartialEq, Eq, Structural)]
pub struct RoutineOccurrenceSourceEvidence {
    pub item_id: Uuid,
    /// The revision that the item has now, if it is still there.
    pub current_revision: Option<u64>,
    pub eligible: bool,
}

/// What is known of the items that an occurrence was admitted with.
#[derive(Debug)]
pub struct RoutineOccurrenceEvidence {
    pub current_definition_hash: String,
    pub sources: Vec<RoutineOccurrenceSourceEvidence>,
    pub execution_revision: u64,
    pub live_work_units: Vec<RoutineOccurrenceWorkUnit>,
}

/// What is known of the item with an identifier.
pub open spec fn source_of(items: Seq<Item>, id: Uuid) -> RoutineOccurrenceSourceEvidence {
    match place_of(items, id) {
        Some(place) => RoutineOccurrenceSourceEvidence {
            item_id: id,
            current_revision: Some(items[place].revision),
            eligible: eligible(items[place].status),
        },
        None => RoutineOccurrenceSourceEvidence {
            item_id: id,
            current_revision: None,
            eligible: false,
        },
    }
}

/// Whether a definition that cannot be had leaves the occurrence readable.
pub open spec fn definition_may_lack(error: RoutineOccurrenceError) -> bool {
    error == RoutineOccurrenceError::SourceIneligible || error
        == RoutineOccurrenceError::OccurrenceMissing || error
        == RoutineOccurrenceError::DefinitionChanged || error == RoutineOccurrenceError::TooLarge
}

/// Gathers what is known of the items that an occurrence was admitted with.
/// `definition` is the hash of the routine as it is now. An occurrence stays readable
/// when its routine is gone, has changed or has grown too large.
pub fn evidence_for(
    manifest: &RoutineOccurrenceManifest,
    current: &CurrentEvidence,
    definition: Result<String, RoutineOccurrenceError>,
) -> (result: Result<RoutineOccurrenceEvidence, RoutineOccurrenceError>)
    requires
        current.sound(),
    ensures
        match result {
            Ok(evidence) => {
                &&& match definition {
                    Ok(hash) => evidence.current_definition_hash == hash,
                    Err(error) => definition_may_lack(error)
                        && evidence.current_definition_hash@ == unavailable_definition(),
                }
                &&& evidence.sources@.len() == manifest.members@.len()
                &&& forall|k: int|
                    0 <= k < manifest.members@.len() ==> #[trigger] evidence.sources@[k]
                        == source_of(current.items@, manifest.members@[k].item_id)
                &&& evidence.execution_revision == current.execution_revision
                &&& evidence.live_work_units@ == current.live_work_units@
            },
            Err(error) => definition == Err::<String, RoutineOccurrenceError>(error)
                && !definition_may_lack(error),
        },
{
    let current_definition_hash: String = match definition {
        Ok(hash) => hash,
        Err(error) => match error {
            RoutineOccurrenceError::SourceIneligible
            | RoutineOccurrenceError::OccurrenceMissing
            | RoutineOccurrenceError::DefinitionChanged
            | RoutineOccurrenceError::TooLarge => encoded_hash(
                hash_text("dayweave.routine-definition.unavailable.v1"),
            ),
            _ => {
                return Err(error);
            },
        },
    };
    let mut sources: Vec<RoutineOccurrenceSourceEvidence> = Vec::new();
    let mut i: usize = 0;
    while i < manifest.members.len()
        invariant
            i <= manifest.members@.len(),
            current.sound(),
            sources@.len() == i,
            forall|k: int|
                0 <= k < i ==> #[trigger] sources@[k] == source_of(
                    current.items@,
                    manifest.members@[k].item_id,
                ),
        decreases manifest.members.len() - i,
    {
        let item_id: Uuid = manifest.members[i].item_id;
        proof {
            lemma_place(current.items@, item_id);
            assert(current.by_id@.contains_key(item_id) == (place_of(current.items@, item_id)
                is Some));
        }
        let source: RoutineOccurrenceSourceEvidence = match current.by_id.get(&item_id) {
            Some(place) => RoutineOccurrenceSourceEvidence {
                item_id,
                current_revision: Some(current.items[*place].revision),
                eligible: source_eligible(&current.items[*place]),
            },
            None => RoutineOccurrenceSourceEvidence {
                item_id,
                current_revision: None,
                eligible: false,
            },
        };
        sources.push(source);
        i = i + 1;
    }
    Ok(
        RoutineOccurrenceEvidence {
            current_definition_hash,
            sources,
            execution_revision: current.execution_revision,
            live_work_units: copy_units(&current.live_work_units),
        },
    )
}

/// A copy of a list of work.
fn copy_units(units: &Vec<RoutineOccurrenceWorkUnit>) -> (result: Vec<RoutineOccurrenceWorkUnit>)
    ensures
        result@ == units@,
{
    let mut copy: Vec<RoutineOccurrenceWorkUnit> = Vec::new();
    let mut i: usize = 0;
    while i < units.len()
        invariant
            i <= units@.len(),
            copy@ == units@.take(i as int),
        decreases units.len() - i,
    {
        copy.push(units[i]);
        i = i + 1;
        assert(copy@ =~= units@.take(i as int));
    }
    assert(units@.take(i as int) =~= units@);
    copy
}

} // verus!
