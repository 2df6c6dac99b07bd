//! Taking back a whole application: what becomes of the items when all of its effects are
//! undone, the last one first.
use vstd::prelude::*;

use crate::items::commands::{ItemCommandPlan, TransactionalGraphMode};
use crate::items::model::{Item, ItemPolicy, ItemRepositoryError};
use crate::proposals::application::{ProposalApplicationReceipt, ProposalApplicationStatus};
use crate::review::applications::{ApplicationRow, UndoneMark};
use crate::review::errors::RequestRow;
use crate::review::undoing::StoredEffect;
use crate::time::{Instant, Uuid};

verus! {

/// Whether two states of an item have the same content: they agree in everything but the
/// revision, the time of the last change, and whether work on the item can start, which
/// follows from its place in the tree.
pub open spec fn content_same(a: Item, b: Item) -> bool {
    b == (Item {
        revision: b.revision,
        updated_at: b.updated_at,
        is_executable: b.is_executable,
        ..a
    })
}

/// Whether `item` is a parent whose execution state was derived anew among `items`.
pub open spec fn derived_anew(
    policy: ItemPolicy,
    items: Map<Uuid, Item>,
    id: Uuid,
    item: Item,
) -> bool {
    &&& content_same(items[id], item)
    &&& item.revision >= items[id].revision
    &&& item.is_executable == policy.execution_allowed(
        item.kind,
        item.has_own_effort,
        item.deleted_at is Some,
        crate::items::hierarchy::has_live_child(items, id),
    )
}

/// Whether `after` are the items once a plan was written: its item has the new state, the
/// execution state of the parents was derived anew, and nothing else changed.
pub open spec fn plan_written(
    policy: ItemPolicy,
    before: Map<Uuid, Item>,
    plan: ItemCommandPlan,
    after: Map<Uuid, Item>,
) -> bool {
    let standing = before.insert(plan.item.id, plan.item);
    &&& after.dom() == standing.dom()
    &&& forall|id: Uuid| #[trigger]
        after.contains_key(id) ==> if plan.refreshed_parents@.contains(id) {
            derived_anew(policy, standing, id, after[id])
        } else {
            after[id] == standing[id]
        }
}

/// Whether `item` is `current` in the trash.
pub open spec fn thrown_away(current: Item, item: Item) -> bool {
    &&& item.id == current.id
    &&& item.deleted_at is Some
    &&& item.parent_id == current.parent_id
    &&& item.revision > current.revision
}

/// Whether undoing an effect among `items` leads to `after`. What the rules for item content
/// make of an item that was created is the item in the trash.
pub open spec fn takes_back(
    policy: ItemPolicy,
    items: Map<Uuid, Item>,
    effect: StoredEffect,
    now: Instant,
    after: Map<Uuid, Item>,
) -> bool {
    let id = effect.item_id;
    let command = crate::review::undoing::inverse_of(effect, items[id].revision);
    &&& items.contains_key(id)
    &&& items[id].revision < u64::MAX
    &&& command is Some
    &&& exists|
        outcome: Result<Item, ItemRepositoryError>,
        mode: TransactionalGraphMode,
        plan: ItemCommandPlan,
    |
        {
            &&& #[trigger] crate::items::commands::plan_fits(
                items,
                command->0,
                outcome,
                now,
                mode,
                plan,
            )
            &&& effect.operation is CreateItem ==> outcome is Ok && thrown_away(
                items[id],
                outcome->Ok_0,
            )
            &&& plan_written(policy, items, plan, after)
        }
}

/// Whether `states` are the items before and after each effect is undone.
pub open spec fn takes_all_back(
    policy: ItemPolicy,
    effects: Seq<StoredEffect>,
    now: Instant,
    states: Seq<Map<Uuid, Item>>,
) -> bool {
    &&& states.len() == effects.len() + 1
    &&& forall|k: int|
        0 <= k < effects.len() ==> takes_back(
            policy,
            states[k],
            #[trigger] effects[k],
            now,
            states[k + 1],
        )
}

/// Whether one of the effects is on an item.
pub open spec fn touches(effects: Seq<StoredEffect>, id: Uuid) -> bool {
    exists|k: int| 0 <= k < effects.len() && (#[trigger] effects[k]).item_id == id
}

/// Whether `effects` are what led from the items `initial` to the items `applied`: each is on
/// an item of its own, and has the state that the item had; an item that was created was not
/// there; and every other item kept its content.
pub open spec fn effects_between(
    initial: Map<Uuid, Item>,
    effects: Seq<StoredEffect>,
    applied: Map<Uuid, Item>,
) -> bool {
    &&& forall|id: Uuid| #[trigger] initial.contains_key(id) ==> initial[id].id == id
    &&& forall|id: Uuid| #[trigger] applied.contains_key(id) ==> applied[id].id == id
    &&& forall|i: int, j: int|
        0 <= i < j < effects.len() ==> (#[trigger] effects[i]).item_id != (
        #[trigger] effects[j]).item_id
    &&& forall|k: int|
        0 <= k < effects.len() ==> {
            let effect = #[trigger] effects[k];
            if effect.operation is CreateItem {
                !initial.contains_key(effect.item_id)
            } else {
                initial.contains_key(effect.item_id) && effect.before == Some(
                    initial[effect.item_id],
                )
            }
        }
    &&& forall|id: Uuid|
        !touches(effects, id) ==> #[trigger] applied.contains_key(id) == initial.contains_key(id)
    &&& forall|id: Uuid|
        !touches(effects, id) && #[trigger] initial.contains_key(id) ==> content_same(
            initial[id],
            applied[id],
        )
}

/// What undoing one effect does to an item.
proof fn lemma_taken_back(
    policy: ItemPolicy,
    items: Map<Uuid, Item>,
    effect: StoredEffect,
    now: Instant,
    after: Map<Uuid, Item>,
    id: Uuid,
)
    requires
        takes_back(policy, items, effect, now, after),
        items[effect.item_id].id == effect.item_id,
        !(effect.operation is CreateItem) ==> effect.before->0.id == effect.item_id,
        items.contains_key(id),
    ensures
        after.contains_key(id),
        after.dom() == items.dom(),
        after[id].revision >= items[id].revision,
        if id != effect.item_id {
            content_same(items[id], after[id])
        } else {
            &&& after[id].revision > items[id].revision
            &&& if effect.operation is CreateItem {
                after[id].deleted_at is Some && after[id].id == id
            } else {
                content_same(effect.before->0, after[id])
            }
        },
{
    let command = crate::review::undoing::inverse_of(effect, items[effect.item_id].revision)->0;
    let (outcome, mode, plan) = choose|
        outcome: Result<Item, ItemRepositoryError>,
        mode: TransactionalGraphMode,
        plan: ItemCommandPlan,
    |
        {
            &&& #[trigger] crate::items::commands::plan_fits(
                items,
                command,
                outcome,
                now,
                mode,
                plan,
            )
            &&& effect.operation is CreateItem ==> outcome is Ok && thrown_away(
                items[effect.item_id],
                outcome->Ok_0,
            )
            &&& plan_written(policy, items, plan, after)
        };
    let standing = items.insert(plan.item.id, plan.item);
    assert(plan.item.id == effect.item_id);
    assert(standing.dom() =~= items.dom());
    assert(after.contains_key(id));
}

/// What undoing the first `k` effects does to an item.
proof fn lemma_some_taken_back(
    policy: ItemPolicy,
    initial: Map<Uuid, Item>,
    effects: Seq<StoredEffect>,
    now: Instant,
    states: Seq<Map<Uuid, Item>>,
    k: int,
    id: Uuid,
)
    requires
        takes_all_back(policy, effects, now, states),
        effects_between(initial, effects, states[0]),
        0 <= k <= effects.len(),
        states[0].contains_key(id),
    ensures
        states[k].contains_key(id),
        states[k][id].id == id,
        states[k].dom() == states[0].dom(),
        states[k][id].revision >= states[0][id].revision,
        !touches(effects.take(k), id) ==> content_same(states[0][id], states[k][id]),
        touches(effects.take(k), id) ==> states[k][id].revision > states[0][id].revision
            && if initial.contains_key(id) {
            content_same(initial[id], states[k][id])
        } else {
            states[k][id].deleted_at is Some
        },
    decreases k,
{
    if k > 0 {
        let effect = effects[k - 1];
        let before = effects.take(k - 1);
        let now_taken = effects.take(k);
        assert(now_taken =~= before.push(effect));
        assert(takes_back(policy, states[k - 1], effect, now, states[k]));
        lemma_some_taken_back(policy, initial, effects, now, states, k - 1, id);
        assert(states[0].contains_key(effect.item_id));
        lemma_some_taken_back(policy, initial, effects, now, states, k - 1, effect.item_id);
        lemma_taken_back(policy, states[k - 1], effect, now, states[k], id);
        if touches(before, id) {
            let j = choose|j: int| 0 <= j < before.len() && (#[trigger] before[j]).item_id == id;
            assert(now_taken[j].item_id == id);
            assert(effects[j].item_id == id);
            assert(id != effect.item_id);
        } else if touches(now_taken, id) {
            let j = choose|j: int| 0 <= j < now_taken.len() && (#[trigger] now_taken[j]).item_id
                == id;
            if j < k - 1 {
                assert(before[j].item_id == id);
            }
            assert(effect.item_id == id);
        } else {
            assert(now_taken[k - 1].item_id == effect.item_id);
        }
    } else {
        assert(effects.take(0).len() == 0);
    }
}

/// Undoing an application brings everything back: once all of its effects are undone, the
/// last one first, every item that was there before has the content that it had, under a
/// higher revision where the application changed it, and every item that the application
/// created is in the trash.
pub proof fn undone_application_brings_everything_back(
    policy: ItemPolicy,
    initial: Map<Uuid, Item>,
    effects: Seq<StoredEffect>,
    now: Instant,
    states: Seq<Map<Uuid, Item>>,
    id: Uuid,
)
    requires
        takes_all_back(policy, effects, now, states),
        effects_between(initial, effects, states[0]),
        states[0].contains_key(id),
    ensures
        states[effects.len() as int].contains_key(id),
        initial.contains_key(id) ==> content_same(initial[id], states[effects.len() as int][id]),
        !initial.contains_key(id) ==> states[effects.len() as int][id].deleted_at is Some,
        touches(effects, id) ==> states[effects.len() as int][id].revision
            > states[0][id].revision,
{
    lemma_some_taken_back(policy, initial, effects, now, states, effects.len() as int, id);
    assert(effects.take(effects.len() as int) =~= effects);
}

/// Whether work on an item can start, as it follows from the item and its place in the tree.
pub open spec fn follows_from_tree(policy: ItemPolicy, items: Map<Uuid, Item>, id: Uuid) -> bool {
    items[id].is_executable == policy.execution_allowed(
        items[id].kind,
        items[id].has_own_effort,
        items[id].deleted_at is Some,
        crate::items::hierarchy::has_live_child(items, id),
    )
}

/// Whether an item is a live child of another one.
spec fn live_child(items: Map<Uuid, Item>, child: Uuid, id: Uuid) -> bool {
    crate::items::hierarchy::live(items, child) && items[child].parent_id == Some(id)
}

proof fn lemma_same_children(a: Map<Uuid, Item>, b: Map<Uuid, Item>, id: Uuid)
    requires
        forall|child: Uuid| live_child(a, child, id) == #[trigger] live_child(b, child, id),
    ensures
        crate::items::hierarchy::has_live_child(a, id) == crate::items::hierarchy::has_live_child(
            b,
            id,
        ),
{
    if crate::items::hierarchy::has_live_child(a, id) {
        let child = choose|child: Uuid| #[trigger]
            crate::items::hierarchy::live(a, child) && a[child].parent_id == Some(id);
        assert(live_child(b, child, id));
    }
    if crate::items::hierarchy::has_live_child(b, id) {
        let child = choose|child: Uuid| #[trigger]
            crate::items::hierarchy::live(b, child) && b[child].parent_id == Some(id);
        assert(live_child(b, child, id));
        assert(live_child(a, child, id));
    }
}

/// What undoing one effect does to the execution state of an item: it follows from the tree
/// again, or it came back with the former state, or both it and the children of the item are
/// as they were.
proof fn lemma_execution_taken_back(
    policy: ItemPolicy,
    items: Map<Uuid, Item>,
    effect: StoredEffect,
    now: Instant,
    after: Map<Uuid, Item>,
    id: Uuid,
)
    requires
        takes_back(policy, items, effect, now, after),
        items[effect.item_id].id == effect.item_id,
        !(effect.operation is CreateItem) ==> effect.before->0.id == effect.item_id,
        items.contains_key(id),
    ensures
        ({
            ||| follows_from_tree(policy, after, id)
            ||| id == effect.item_id && (!(effect.operation is CreateItem)
                ==> after[id].is_executable == effect.before->0.is_executable)
            ||| {
                &&& id != effect.item_id
                &&& after[id].is_executable == items[id].is_executable
                &&& crate::items::hierarchy::has_live_child(after, id)
                    == crate::items::hierarchy::has_live_child(items, id)
            }
        }),
{
    let mine = effect.item_id;
    let command = crate::review::undoing::inverse_of(effect, items[mine].revision)->0;
    let (outcome, mode, plan) = choose|
        outcome: Result<Item, ItemRepositoryError>,
        mode: TransactionalGraphMode,
        plan: ItemCommandPlan,
    |
        {
            &&& #[trigger] crate::items::commands::plan_fits(
                items,
                command,
                outcome,
                now,
                mode,
                plan,
            )
            &&& effect.operation is CreateItem ==> outcome is Ok && thrown_away(
                items[mine],
                outcome->Ok_0,
            )
            &&& plan_written(policy, items, plan, after)
        };
    let standing = items.insert(plan.item.id, plan.item);
    assert(plan.item.id == mine);
    assert(standing.dom() =~= items.dom());
    assert(after.contains_key(id));
    assert forall|child: Uuid| live_child(standing, child, id) == #[trigger] live_child(
        after,
        child,
        id,
    ) by {
        if after.contains_key(child) {
            assert(standing.contains_key(child));
        }
        assert(after.contains_key(child) == standing.contains_key(child));
    }
    lemma_same_children(standing, after, id);
    if plan.refreshed_parents@.contains(id) {
        assert(derived_anew(policy, standing, id, after[id]));
    } else if id != mine {
        assert forall|child: Uuid| live_child(items, child, id) == #[trigger] live_child(
            standing,
            child,
            id,
        ) by {
            if child == mine && live_child(items, child, id) != live_child(standing, child, id) {
                assert(plan.refreshed_parents@.contains(id));
            }
        }
        lemma_same_children(items, standing, id);
    }
}

/// The execution state of an item once the first `k` effects are undone: it follows from the
/// tree, or it is that of the former state.
proof fn lemma_execution(
    policy: ItemPolicy,
    initial: Map<Uuid, Item>,
    effects: Seq<StoredEffect>,
    now: Instant,
    states: Seq<Map<Uuid, Item>>,
    k: int,
    id: Uuid,
)
    requires
        takes_all_back(policy, effects, now, states),
        effects_between(initial, effects, states[0]),
        0 <= k <= effects.len(),
        states[0].contains_key(id),
        initial.contains_key(id),
        follows_from_tree(policy, states[0], id),
    ensures
        ({
            ||| follows_from_tree(policy, states[k], id)
            ||| touches(effects.take(k), id) && states[k][id].is_executable
                == initial[id].is_executable
        }),
    decreases k,
{
    if k > 0 {
        let effect = effects[k - 1];
        assert(takes_back(policy, states[k - 1], effect, now, states[k]));
        lemma_execution(policy, initial, effects, now, states, k - 1, id);
        lemma_some_taken_back(policy, initial, effects, now, states, k - 1, id);
        assert(states[0].contains_key(effect.item_id));
        lemma_some_taken_back(policy, initial, effects, now, states, k - 1, effect.item_id);
        lemma_execution_taken_back(policy, states[k - 1], effect, now, states[k], id);
        lemma_taken_back(policy, states[k - 1], effect, now, states[k], id);
        assert(effects.take(k)[k - 1] == effect);
        if touches(effects.take(k - 1), id) {
            let j = choose|j: int|
                0 <= j < effects.take(k - 1).len() && (#[trigger] effects.take(k - 1)[j]).item_id
                    == id;
            assert(effects.take(k)[j].item_id == id);
        }
    }
}

/// Undoing an application brings back what can be worked on: where the execution state of an
/// item followed from the tree, before the application and after it, the item has its former
/// execution state once all effects are undone.
pub proof fn undone_application_brings_execution_back(
    policy: ItemPolicy,
    initial: Map<Uuid, Item>,
    effects: Seq<StoredEffect>,
    now: Instant,
    states: Seq<Map<Uuid, Item>>,
    id: Uuid,
)
    requires
        takes_all_back(policy, effects, now, states),
        effects_between(initial, effects, states[0]),
        initial.contains_key(id),
        follows_from_tree(policy, initial, id),
        follows_from_tree(policy, states[0], id),
    ensures
        states[effects.len() as int][id].is_executable == initial[id].is_executable,
{
    let last = effects.len() as int;
    let end = states[last];
    assert forall|other: Uuid| initial.contains_key(other) implies #[trigger] states[0].contains_key(
        other,
    ) by {
        if touches(effects, other) {
            let k = choose|k: int| 0 <= k < effects.len() && (#[trigger] effects[k]).item_id == other;
            lemma_domains(policy, initial, effects, now, states, k);
            assert(takes_back(policy, states[k], effects[k], now, states[k + 1]));
        }
    }
    lemma_domains(policy, initial, effects, now, states, last);
    assert(states[0].contains_key(id));
    lemma_execution(policy, initial, effects, now, states, last, id);
    undone_application_brings_everything_back(policy, initial, effects, now, states, id);
    assert forall|child: Uuid| live_child(initial, child, id) == #[trigger] live_child(
        end,
        child,
        id,
    ) by {
        if states[0].contains_key(child) {
            undone_application_brings_everything_back(policy, initial, effects, now, states, child);
        }
        assert(end.contains_key(child) == states[0].contains_key(child));
        assert(initial.contains_key(child) ==> states[0].contains_key(child));
    }
    lemma_same_children(initial, end, id);
}

/// Undoing effects neither adds an item nor removes one.
proof fn lemma_domains(
    policy: ItemPolicy,
    initial: Map<Uuid, Item>,
    effects: Seq<StoredEffect>,
    now: Instant,
    states: Seq<Map<Uuid, Item>>,
    k: int,
)
    requires
        takes_all_back(policy, effects, now, states),
        effects_between(initial, effects, states[0]),
        0 <= k <= effects.len(),
    ensures
        states[k].dom() == states[0].dom(),
    decreases k,
{
    if k > 0 {
        let effect = effects[k - 1];
        let id = effect.item_id;
        lemma_domains(policy, initial, effects, now, states, k - 1);
        assert(takes_back(policy, states[k - 1], effect, now, states[k]));
        assert(states[k - 1].dom().contains(id));
        assert(states[0].contains_key(id));
        lemma_some_taken_back(policy, initial, effects, now, states, k - 1, id);
        lemma_taken_back(policy, states[k - 1], effect, now, states[k], id);
    }
}

/// An undo that is repeated changes nothing: the request that is stored with it is answered
/// from then on with the application that it undid, which is undone and at its second
/// revision, and another request with its key is refused.
pub proof fn repeated_undo_is_replayed(
    application_id: Uuid,
    request_hash: Seq<u8>,
    other: Seq<u8>,
    stored: RequestRow,
    applied: ApplicationRow,
    mark: UndoneMark,
    undone: ApplicationRow,
    receipt: ProposalApplicationReceipt,
)
    requires
        request_hash.len() == 32,
        other != request_hash,
        stored.request_hash@ == request_hash,
        stored.application_id == application_id,
        mark.status@ == crate::review::errors::application_status_text(
            ProposalApplicationStatus::Undone,
        ),
        mark.revision == 2,
        crate::review::applications::marked_undone(applied, mark, undone),
        undone.status@ == crate::review::errors::application_status_text(receipt.status),
        receipt.application_revision == undone.revision,
        receipt.undone_at == undone.undone_at,
    ensures
        crate::review::errors::replayed_application(Some(stored), request_hash) == Ok::<
            Option<Uuid>,
            crate::review::errors::Refusal,
        >(Some(application_id)),
        crate::review::errors::replayed_application(Some(stored), other) == Err::<
            Option<Uuid>,
            crate::review::errors::Refusal,
        >(crate::review::errors::Refusal::IdempotencyConflict),
        receipt.status == ProposalApplicationStatus::Undone,
        receipt.application_revision == 2,
        receipt.undone_at == Some(mark.undone_at),
{
    reveal_strlit("applied");
    reveal_strlit("undone");
    assert("applied"@.len() == 7);
    assert("undone"@.len() == 6);
}

} // verus!
