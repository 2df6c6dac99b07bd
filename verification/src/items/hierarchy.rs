//! The tree of items: parents, ancestors and children.
use std::collections::{BTreeMap, BTreeSet};

use vstd::prelude::*;

use crate::items::model::{Item, ItemPolicy, ItemRepositoryError};
use crate::time::Uuid;

verus! {

/// Whether a workspace has the item, and it is not in the trash.
pub open spec fn live(items: Map<Uuid, Item>, id: Uuid) -> bool {
    items.contains_key(id) && items[id].deleted_at is None
}

/// The parent of an item that the workspace has.
pub open spec fn parent_of(items: Map<Uuid, Item>, id: Uuid) -> Option<Uuid> {
    if items.contains_key(id) {
        items[id].parent_id
    } else {
        None
    }
}

/// The ancestor `n` levels above `id`, which is `id` itself for `n == 0`.
pub open spec fn ancestor(items: Map<Uuid, Item>, id: Uuid, n: nat) -> Option<Uuid>
    decreases n,
{
    if n == 0 {
        Some(id)
    } else {
        match ancestor(items, id, (n - 1) as nat) {
            Some(below) => parent_of(items, below),
            None => None,
        }
    }
}

/// Whether the way up from `start` meets `id`, or never ends.
pub open spec fn climbs_to(items: Map<Uuid, Item>, start: Uuid, id: Uuid) -> bool {
    ||| exists|n: nat| #[trigger] ancestor(items, start, n) == Some(id)
    ||| forall|n: nat| (#[trigger] ancestor(items, start, n)) is Some
}

/// Whether the way up from `id` ends.
pub open spec fn rooted(items: Map<Uuid, Item>, id: Uuid) -> bool {
    exists|n: nat| (#[trigger] ancestor(items, id, n)) is None
}

/// Whether the way up from every item ends.
pub open spec fn acyclic(items: Map<Uuid, Item>) -> bool {
    forall|id: Uuid| #[trigger] rooted(items, id)
}

/// Why `parent_id` cannot be the parent of `item_id`, if it cannot.
pub open spec fn parent_check(
    policy: ItemPolicy,
    items: Map<Uuid, Item>,
    item_id: Uuid,
    parent_id: Option<Uuid>,
) -> Result<(), ItemRepositoryError> {
    match parent_id {
        None => Ok(()),
        Some(parent) => if parent == item_id {
            Err(ItemRepositoryError::SelfParent)
        } else if !live(items, parent) {
            Err(ItemRepositoryError::ParentNotFound(parent))
        } else if policy.executing@.contains(items[parent].status) {
            Err(ItemRepositoryError::InvalidParentState)
        } else if climbs_to(items, parent, item_id) {
            Err(ItemRepositoryError::HierarchyCycle)
        } else {
            Ok(())
        },
    }
}

proof fn lemma_ancestor_none(items: Map<Uuid, Item>, id: Uuid, n: nat, m: nat)
    requires
        ancestor(items, id, n) is None,
        n <= m,
    ensures
        ancestor(items, id, m) is None,
    decreases m,
{
    if n < m {
        lemma_ancestor_none(items, id, n, (m - 1) as nat);
    }
}

pub(crate) proof fn lemma_ancestor_add(items: Map<Uuid, Item>, id: Uuid, a: nat, b: nat)
    requires
        ancestor(items, id, a) is Some,
    ensures
        ancestor(items, id, a + b) == ancestor(items, ancestor(items, id, a)->0, b),
    decreases b,
{
    if b > 0 {
        lemma_ancestor_add(items, id, a, (b - 1) as nat);
        assert((a + b - 1) as nat == a + (b - 1) as nat);
    }
}

/// A way up that comes back to where it was never ends.
pub(crate) proof fn lemma_repeat_is_endless(items: Map<Uuid, Item>, id: Uuid, a: nat, b: nat, m: nat)
    requires
        a < b,
        ancestor(items, id, b) is Some,
        ancestor(items, id, a) == ancestor(items, id, b),
    ensures
        ancestor(items, id, m) is Some,
    decreases m,
{
    if m < b {
        if ancestor(items, id, m) is None {
            lemma_ancestor_none(items, id, m, b);
        }
    } else if m > b {
        let rest = (m - b) as nat;
        lemma_ancestor_add(items, id, b, rest);
        lemma_ancestor_add(items, id, a, rest);
        assert(ancestor(items, id, m) == ancestor(items, id, a + rest));
        lemma_repeat_is_endless(items, id, a, b, (a + rest) as nat);
    }
}

/// Whether `parent_id` can be the parent of `item_id`.
#[verifier::loop_isolation(false)]
pub fn validate_projected_parent(
    policy: &ItemPolicy,
    items: &BTreeMap<Uuid, Item>,
    item_id: Uuid,
    parent_id: Option<Uuid>,
) -> (result: Result<(), ItemRepositoryError>)
    ensures
        result == parent_check(*policy, items@, item_id, parent_id),
{
    let parent: Uuid = match parent_id {
        None => {
            return Ok(());
        },
        Some(parent) => parent,
    };
    if parent == item_id {
        return Err(ItemRepositoryError::SelfParent);
    }
    match items.get(&parent) {
        None => {
            return Err(ItemRepositoryError::ParentNotFound(parent));
        },
        Some(found) => {
            if found.deleted_at.is_some() {
                return Err(ItemRepositoryError::ParentNotFound(parent));
            }
            if policy.is_executing_state(found.status) {
                return Err(ItemRepositoryError::InvalidParentState);
            }
        },
    }
    let mut visited: BTreeSet<Uuid> = BTreeSet::new();
    let mut above: Option<Uuid> = Some(parent);
    let ghost mut n: nat = 0;
    while above.is_some()
        invariant
            above == ancestor(items@, parent, n),
            forall|k: nat| k < n ==> {
                &&& (#[trigger] ancestor(items@, parent, k)) is Some
                &&& ancestor(items@, parent, k) != Some(item_id)
                &&& visited@.contains(ancestor(items@, parent, k)->0)
            },
            forall|id: Uuid|
                visited@.contains(id) ==> exists|k: nat|
                    k < n && #[trigger] ancestor(items@, parent, k) == Some(id),
            visited@.finite(),
            visited@.len() == n,
        decreases items@.dom().len() + 2 - n,
    {
        let here: Uuid = above.unwrap();
        if here == item_id {
            return Err(ItemRepositoryError::HierarchyCycle);
        }
        proof {
            assert forall|id: Uuid| visited@.contains(id) implies items@.dom().contains(id) by {
                let k = choose|k: nat| k < n && #[trigger] ancestor(items@, parent, k) == Some(id);
                if !items@.contains_key(id) {
                    assert(ancestor(items@, parent, k + 1) is None);
                    lemma_ancestor_none(items@, parent, k + 1, n);
                }
            }
            vstd::set_lib::lemma_len_subset(visited@, items@.dom());
        }
        let ghost seen = visited@;
        if !visited.insert(here) {
            proof {
                let k = choose|k: nat|
                    k < n && #[trigger] ancestor(items@, parent, k) == Some(here);
                assert forall|m: nat| (#[trigger] ancestor(items@, parent, m)) is Some by {
                    lemma_repeat_is_endless(items@, parent, k, n, m);
                }
            }
            return Err(ItemRepositoryError::HierarchyCycle);
        }
        above = match items.get(&here) {
            Some(item) => item.parent_id,
            None => None,
        };
        proof {
            assert(ancestor(items@, parent, n + 1) == parent_of(items@, here));
            assert forall|id: Uuid| visited@.contains(id) implies exists|k: nat|
                k < n + 1 && #[trigger] ancestor(items@, parent, k) == Some(id) by {
                if id == here {
                    assert(ancestor(items@, parent, n) == Some(id));
                } else {
                    assert(seen.contains(id));
                    let k = choose|k: nat|
                        k < n && #[trigger] ancestor(items@, parent, k) == Some(id);
                    assert(ancestor(items@, parent, k) == Some(id));
                }
            }
            n = n + 1;
        }
    }
    proof {
        assert(ancestor(items@, parent, n) is None);
        assert forall|m: nat| #[trigger] ancestor(items@, parent, m) != Some(item_id) by {
            if m >= n {
                lemma_ancestor_none(items@, parent, n, m);
            }
        }
    }
    Ok(())
}

pub(crate) proof fn lemma_same_way(
    items: Map<Uuid, Item>,
    changed: Map<Uuid, Item>,
    start: Uuid,
    item_id: Uuid,
    n: nat,
)
    requires
        forall|id: Uuid| id != item_id ==> #[trigger] parent_of(items, id) == parent_of(changed, id),
        forall|k: nat| k < n ==> #[trigger] ancestor(items, start, k) != Some(item_id),
    ensures
        ancestor(items, start, n) == ancestor(changed, start, n),
    decreases n,
{
    if n > 0 {
        let below = (n - 1) as nat;
        lemma_same_way(items, changed, start, item_id, below);
        assert(ancestor(items, start, below) != Some(item_id));
        match ancestor(items, start, below) {
            Some(id) => {
                assert(parent_of(items, id) == parent_of(changed, id));
            },
            None => {},
        }
    }
}

/// A parent that passes the check keeps the tree free of cycles: where the way up
/// from every item ends, it still does once `item_id` has that parent.
pub proof fn accepted_parent_keeps_tree_acyclic(
    policy: ItemPolicy,
    items: Map<Uuid, Item>,
    item_id: Uuid,
    item: Item,
)
    requires
        acyclic(items),
        parent_check(policy, items, item_id, item.parent_id) is Ok,
    ensures
        acyclic(items.insert(item_id, item)),
{
    let changed = items.insert(item_id, item);
    assert forall|id: Uuid| id != item_id implies #[trigger] parent_of(items, id) == parent_of(
        changed,
        id,
    ) by {}
    let above = match item.parent_id {
        Some(parent) => {
            assert(!climbs_to(items, parent, item_id));
            assert(rooted(items, parent));
            let end = choose|n: nat| (#[trigger] ancestor(items, parent, n)) is None;
            lemma_same_way(items, changed, parent, item_id, end);
            end
        },
        None => 0nat,
    };
    assert forall|id: Uuid| #[trigger] rooted(changed, id) by {
        assert(rooted(items, id));
        let end = choose|n: nat| (#[trigger] ancestor(items, id, n)) is None;
        if exists|k: nat| k < end && #[trigger] ancestor(items, id, k) == Some(item_id) {
            let met = lemma_first_meeting(items, id, item_id, end);
            lemma_same_way(items, changed, id, item_id, met);
            assert(ancestor(changed, id, met) == Some(item_id));
            assert(ancestor(changed, id, met + 1) == item.parent_id);
            match item.parent_id {
                Some(parent) => {
                    lemma_ancestor_add(changed, id, met + 1, above);
                    assert(ancestor(changed, id, met + 1 + above) is None);
                },
                None => {
                    assert(ancestor(changed, id, met + 1) is None);
                },
            }
        } else {
            lemma_same_way(items, changed, id, item_id, end);
            assert(ancestor(changed, id, end) is None);
        }
    }
}

/// The first level at which the way up from `start` meets `id`.
pub(crate) proof fn lemma_first_meeting(items: Map<Uuid, Item>, start: Uuid, id: Uuid, end: nat) -> (met: nat)
    requires
        exists|k: nat| k < end && #[trigger] ancestor(items, start, k) == Some(id),
    ensures
        ancestor(items, start, met) == Some(id),
        forall|k: nat| k < met ==> #[trigger] ancestor(items, start, k) != Some(id),
    decreases end,
{
    let some = choose|k: nat| k < end && #[trigger] ancestor(items, start, k) == Some(id);
    if exists|k: nat| k < some && #[trigger] ancestor(items, start, k) == Some(id) {
        lemma_first_meeting(items, start, id, some)
    } else {
        some
    }
}

/// Whether the item that another one is blocked by exists. It may be in the trash.
pub open spec fn blocker_check(
    items: Map<Uuid, Item>,
    blocked_by_item_id: Option<Uuid>,
) -> Result<(), ItemRepositoryError> {
    match blocked_by_item_id {
        Some(id) if !items.contains_key(id) => Err(ItemRepositoryError::BlockedByItemNotFound(id)),
        _ => Ok(()),
    }
}

/// Whether the item that another one is blocked by exists.
pub fn validate_projected_blocker(
    items: &BTreeMap<Uuid, Item>,
    blocked_by_item_id: Option<Uuid>,
) -> (result: Result<(), ItemRepositoryError>)
    ensures
        result == blocker_check(items@, blocked_by_item_id),
{
    match blocked_by_item_id {
        Some(id) => if items.contains_key(&id) {
            Ok(())
        } else {
            Err(ItemRepositoryError::BlockedByItemNotFound(id))
        },
        None => Ok(()),
    }
}

/// Whether some item outside the trash has `id` as its parent.
pub open spec fn has_live_child(items: Map<Uuid, Item>, id: Uuid) -> bool {
    exists|child: Uuid| #[trigger] live(items, child) && items[child].parent_id == Some(id)
}

/// Whether some item outside the trash has `item_id` as its parent.
pub fn projected_has_active_children(item_id: Uuid, items: &BTreeMap<Uuid, Item>) -> (result: bool)
    ensures
        result == has_live_child(items@, item_id),
{
    let mut found: bool = false;
    for entry in it: items.iter()
        invariant
            it.seq() == vstd::std_specs::iter::IteratorSpec::remaining(
                &vstd::std_specs::btree::spec_btree_map_iter(items),
            ),
            found == exists|k: int|
                0 <= k < it.index() && (#[trigger] it.seq()[k]).1.parent_id == Some(item_id)
                    && it.seq()[k].1.deleted_at is None,
    {
        if entry.1.parent_id == Some(item_id) && entry.1.deleted_at.is_none() {
            assert(it.seq()[it.index()].1.parent_id == Some(item_id));
            found = true;
        }
    }
    proof {
        let entries = vstd::std_specs::iter::IteratorSpec::remaining(
                &vstd::std_specs::btree::spec_btree_map_iter(items),
            );
        if found {
            let k = choose|k: int|
                0 <= k < entries.len() && (#[trigger] entries[k]).1.parent_id == Some(item_id)
                    && entries[k].1.deleted_at is None;
            assert(items@.contains_key(*entries[k].0));
            assert(live(items@, *entries[k].0));
        }
        if has_live_child(items@, item_id) {
            let child = choose|child: Uuid| #[trigger]
                live(items@, child) && items@[child].parent_id == Some(item_id);
            assert(entries.contains((&child, &items@[child])));
        }
    }
    found
}

} // verus!
