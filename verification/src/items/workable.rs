//! What the order of a batch is for: a batch that can be carried out is carried out, and what
//! another command has to make possible comes after that command.
use std::collections::BTreeMap;

use vstd::prelude::*;

use crate::items::batch::CommandBatch;
use crate::items::model::{Item, ItemRepositoryError};
use crate::items::ordering::BatchStep;
use crate::items::projection::BatchView;
use crate::items::visits::Visit;
use crate::proposals::application::ProposalCommand;
use crate::time::Uuid;

verus! {

/// Whether the state after some of the commands, but not all, is fixed by which commands were
/// carried out.
pub open spec fn sets_fix_states<F: BatchStep>(
    step: F,
    initial: BatchView,
    prerequisites: Seq<Option<usize>>,
) -> bool {
    forall|p: Seq<usize>, q: Seq<usize>, a: BatchView, b: BatchView|
        #![trigger crate::items::ordering::reaches(step, initial, p, a),
            crate::items::ordering::reaches(step, initial, q, b)]
        p.len() < prerequisites.len() && q.len() < prerequisites.len()
            && crate::items::ordering::allowed_order(prerequisites, p)
            && crate::items::ordering::allowed_order(prerequisites, q) && p.to_set() == q.to_set()
            && crate::items::ordering::reaches(step, initial, p, a)
            && crate::items::ordering::reaches(step, initial, q, b) ==> a == b
}

proof fn lemma_reaches_one<F: BatchStep>(
    step: F,
    order: Seq<usize>,
    x: Seq<BatchView>,
    y: Seq<BatchView>,
    k: int,
)
    requires
        crate::items::ordering::determined(step),
        crate::items::ordering::passes(step, order, x),
        crate::items::ordering::passes(step, order, y),
        x[0] == y[0],
        0 <= k <= order.len(),
    ensures
        x[k] == y[k],
    decreases k,
{
    if k > 0 {
        lemma_reaches_one(step, order, x, y, k - 1);
        let index = order[k - 1];
        assert(step.gives(index, x[k - 1], Ok::<BatchView, ItemRepositoryError>(x[k])));
        assert(step.gives(index, y[k - 1], Ok::<BatchView, ItemRepositoryError>(y[k])));
        assert(Ok::<BatchView, ItemRepositoryError>(x[k]) == Ok::<BatchView, ItemRepositoryError>(
            y[k],
        ));
    }
}

/// Of two commands, the state after one of them is fixed by which one it was.
proof fn lemma_two_commands<F: BatchStep>(
    step: F,
    initial: BatchView,
    prerequisites: Seq<Option<usize>>,
)
    requires
        crate::items::ordering::determined(step),
        prerequisites.len() <= 2,
    ensures
        sets_fix_states(step, initial, prerequisites),
{
    assert forall|p: Seq<usize>, q: Seq<usize>, a: BatchView, b: BatchView|
        #![trigger crate::items::ordering::reaches(step, initial, p, a),
            crate::items::ordering::reaches(step, initial, q, b)]
        p.len() < prerequisites.len() && q.len() < prerequisites.len()
            && crate::items::ordering::allowed_order(prerequisites, p)
            && crate::items::ordering::allowed_order(prerequisites, q) && p.to_set() == q.to_set()
            && crate::items::ordering::reaches(step, initial, p, a)
            && crate::items::ordering::reaches(step, initial, q, b) implies a == b by {
        if p.len() == 1 {
            assert(p.contains(p[0]));
            assert(q.to_set().contains(p[0]));
            let k = choose|k: int| 0 <= k < q.len() && q[k] == p[0];
            assert(p =~= q);
        } else if q.len() == 1 {
            assert(q.contains(q[0]));
            assert(p.to_set().contains(q[0]));
            assert(false);
        } else {
            assert(p =~= q);
        }
        let x = choose|states: Seq<BatchView>| #[trigger]
            crate::items::ordering::passes(step, p, states) && states[0] == initial
                && states[p.len() as int] == a;
        let y = choose|states: Seq<BatchView>| #[trigger]
            crate::items::ordering::passes(step, q, states) && states[0] == initial
                && states[q.len() as int] == b;
        lemma_reaches_one(step, p, x, y, p.len() as int);
    }
}

/// The first visit that carried out the same commands as a visit.
proof fn lemma_first_alike(log: Seq<Visit>, k: int, count: nat) -> (found: int)
    requires
        0 <= k < log.len(),
    ensures
        0 <= found <= k,
        crate::items::visits::opened(log, found, count),
        crate::items::ordering::marks(log[found].order, count) == crate::items::ordering::marks(
            log[k].order,
            count,
        ),
    decreases k,
{
    reveal(crate::items::visits::opened);
    if crate::items::visits::opened(log, k, count) {
        k
    } else {
        let j = choose|j: int|
            0 <= j < k && #[trigger] crate::items::ordering::marks(log[j].order, count)
                == crate::items::ordering::marks(log[k].order, count);
        lemma_first_alike(log, j, count)
    }
}

/// A search that has tried everything has looked at every beginning of a workable order, in
/// some order of its commands.
proof fn lemma_followed<F: BatchStep>(
    step: F,
    initial: BatchView,
    prerequisites: Seq<Option<usize>>,
    log: Seq<Visit>,
    order: Seq<usize>,
    states: Seq<BatchView>,
    k: int,
) -> (found: int)
    requires
        crate::items::ordering::determined(step),
        sets_fix_states(step, initial, prerequisites),
        prerequisites.len() <= usize::MAX,
        log.len() > 0,
        crate::items::visits::search_log(step, initial, prerequisites, log, Seq::<usize>::empty()),
        crate::items::ordering::allowed_order(prerequisites, order),
        order.len() == prerequisites.len(),
        crate::items::ordering::passes(step, order, states),
        states[0] == initial,
        0 <= k <= order.len(),
    ensures
        0 <= found < log.len(),
        crate::items::visits::opened(log, found, prerequisites.len()),
        crate::items::ordering::marks(log[found].order, prerequisites.len())
            == crate::items::ordering::marks(order.take(k), prerequisites.len()),
        k < order.len() ==> log[found].state == states[k],
    decreases k,
{
    let count = prerequisites.len();
    reveal(crate::items::visits::search_log);
    crate::items::visits::visited_orders_are_allowed(
        step,
        initial,
        prerequisites,
        log,
        Seq::<usize>::empty(),
    );
    let at = if k == 0 {
        reveal(crate::items::visits::linked);
        assert(crate::items::visits::linked(
            step,
            initial,
            prerequisites,
            log,
            0,
            log[0].order,
            log[0].state,
        ));
        assert(log[0].order =~= order.take(0));
        0
    } else {
        let p = lemma_followed(
            step,
            initial,
            prerequisites,
            log,
            order,
            states,
            k - 1,
        );
        let before = order.take(k - 1);
        let here = log[p].order;
        let next = order[k - 1];
        assert(next < count);
        assert(!before.contains(next)) by {
            if before.contains(next) {
                let j = choose|j: int| 0 <= j < before.len() && before[j] == next;
                assert(order[j] == order[k - 1]);
            }
        }
        assert(crate::items::ordering::marks(before, count)[next as int] == before.contains(next));
        assert(crate::items::ordering::marks(here, count)[next as int] == here.contains(next));
        if prerequisites[next as int] is Some {
            let wanted = prerequisites[next as int]->0;
            assert(before.contains(wanted));
            let j = choose|j: int| 0 <= j < before.len() && before[j] == wanted;
            assert(order[j] < count);
            assert(crate::items::ordering::marks(before, count)[wanted as int]);
            assert(crate::items::ordering::marks(here, count)[wanted as int] == here.contains(
                wanted,
            ));
        }
        assert(crate::items::ordering::may_follow(prerequisites, here, next));
        assert(crate::items::visits::below_path(here, Seq::<usize>::empty(), next));
        assert(crate::items::visits::tried_next(step, log, p, next));
        assert(step.gives(next, states[k - 1], Ok::<BatchView, ItemRepositoryError>(states[k])));
        assert(log[p].state == states[k - 1]);
        if exists|error: ItemRepositoryError|
            step.gives(next, log[p].state, Err::<BatchView, ItemRepositoryError>(error)) {
            let error = choose|error: ItemRepositoryError|
                step.gives(next, log[p].state, Err::<BatchView, ItemRepositoryError>(error));
            assert(Err::<BatchView, ItemRepositoryError>(error) == Ok::<
                BatchView,
                ItemRepositoryError,
            >(states[k]));
            assert(false);
        }
        let j = choose|j: int|
            p < j < log.len() && (#[trigger] log[j]).order == log[p].order.push(next)
                && step.gives(
                next,
                log[p].state,
                Ok::<BatchView, ItemRepositoryError>(log[j].state),
            );
        assert(order.take(k) =~= before.push(next));
        crate::items::ordering::lemma_marks_push(before, next, count);
        crate::items::ordering::lemma_marks_push(here, next, count);
        j
    };
    let found = lemma_first_alike(log, at, count);
    if k < order.len() {
        let a = log[found].order;
        let b = order.take(k);
        assert forall|i: int| 0 <= i < b.len() implies #[trigger] b[i] < count by {
            assert(b[i] == order[i]);
        }
        crate::items::ordering::lemma_marks_same_set(a, b, count);
        crate::items::ordering::lemma_allowed_prefix(prerequisites, order, k);
        crate::items::ordering::lemma_passes_prefix(step, order, states, k);
        assert(crate::items::ordering::reaches(step, initial, a, log[found].state));
        assert(crate::items::ordering::reaches(step, initial, b, states[k]));
    }
    found
}

/// A search that ends without an order has missed none.
proof fn lemma_none_missed<F: BatchStep>(
    step: F,
    initial: BatchView,
    prerequisites: Seq<Option<usize>>,
    order: Seq<usize>,
)
    requires
        crate::items::ordering::determined(step),
        sets_fix_states(step, initial, prerequisites),
        prerequisites.len() <= usize::MAX,
        crate::items::visits::search_ends(step, initial, prerequisites),
    ensures
        !crate::items::ordering::workable_order(step, initial, prerequisites, order),
{
    if crate::items::ordering::workable_order(step, initial, prerequisites, order) {
        let count = prerequisites.len();
        let log = choose|log: Seq<Visit>|
            0 < log.len() <= crate::items::ordering::MAX_COMMAND_ORDER_SEARCH_STATES
                && #[trigger] crate::items::visits::search_log(
                step,
                initial,
                prerequisites,
                log,
                Seq::<usize>::empty(),
            );
        let last = choose|last: BatchView|
            crate::items::ordering::reaches(step, initial, order, last);
        let states = choose|states: Seq<BatchView>| #[trigger]
            crate::items::ordering::passes(step, order, states) && states[0] == initial
                && states[order.len() as int] == last;
        let at = lemma_followed(
            step,
            initial,
            prerequisites,
            log,
            order,
            states,
            order.len() as int,
        );
        assert(order.take(order.len() as int) =~= order);
        reveal(crate::items::visits::search_log);
        crate::items::visits::visited_orders_are_allowed(
            step,
            initial,
            prerequisites,
            log,
            Seq::<usize>::empty(),
        );
        assert(log[at].order.len() < count);
        crate::items::ordering::lemma_missing_number(log[at].order, count);
        let missing = choose|i: usize| i < count && !log[at].order.contains(i);
        crate::items::ordering::lemma_full_order(order, count);
        assert(crate::items::ordering::marks(order, count)[missing as int] == order.contains(
            missing,
        ));
        assert(crate::items::ordering::marks(log[at].order, count)[missing as int]
            == log[at].order.contains(missing));
        assert(false);
    }
}

/// A batch that can be carried out in some order is not refused over the tree or over the
/// dependencies: where a command is refused because of a parent, of children, of a circle or
/// of a predecessor, there is no order in which every command is carried out. The state has to
/// be fixed by which commands were carried out, which it is for two commands.
pub proof fn batch_that_works_is_not_refused_over_the_tree<F: BatchStep>(
    step: F,
    initial: BatchView,
    prerequisites: Seq<Option<usize>>,
    index: usize,
    error: ItemRepositoryError,
    order: Seq<usize>,
)
    requires
        crate::items::ordering::determined(step),
        prerequisites.len() <= 2 || sets_fix_states(step, initial, prerequisites),
        prerequisites.len() <= usize::MAX,
        crate::items::ordering::order_refused(step, initial, prerequisites, index, error),
        error is ParentNotFound || error is HierarchyCycle || error is InvalidParentState
            || error is NonLeafExecutable || error is HasChildren || error is DeletedParent
            || error is DependencyNotFound || error is DependencyCycle
            || error is CrossRecurringSubtreeDependency,
    ensures
        !crate::items::ordering::workable_order(step, initial, prerequisites, order),
{
    if prerequisites.len() <= 2 {
        lemma_two_commands(step, initial, prerequisites);
    }
    assert(!crate::items::visits::stops_straight(step, initial, prerequisites, index, error));
    assert(!crate::items::ordering::search_failed(step, initial, prerequisites, index, error));
    if crate::items::visits::search_ends(step, initial, prerequisites) {
        lemma_none_missed(step, initial, prerequisites, order);
    }
}

/// A command that comes first and is refused for a reason that lies in the command itself
/// stops the batch: no other order is looked for.
pub proof fn batch_stops_at_a_command_that_fails_by_itself<F: BatchStep>(
    step: F,
    initial: BatchView,
    prerequisites: Seq<Option<usize>>,
    error: ItemRepositoryError,
    found: Seq<usize>,
)
    requires
        crate::items::ordering::determined(step),
        0 < prerequisites.len() <= usize::MAX,
        prerequisites[0] is None,
        step.gives(0, initial, Err::<BatchView, ItemRepositoryError>(error)),
        !(error is ParentNotFound || error is HierarchyCycle || error is InvalidParentState
            || error is NonLeafExecutable || error is HasChildren || error is DeletedParent
            || error is DependencyNotFound || error is DependencyCycle
            || error is CrossRecurringSubtreeDependency),
    ensures
        !crate::items::visits::search_finds(step, initial, prerequisites, found),
        forall|index: usize, other: ItemRepositoryError|
            !crate::items::visits::first_dead_end(step, initial, prerequisites, index, other),
{
    let none = Seq::<usize>::empty();
    crate::items::visits::lemma_search_begins(step, initial, prerequisites);
    crate::items::visits::lemma_visit(
        step,
        initial,
        prerequisites,
        Seq::<Visit>::empty(),
        none,
        initial,
    );
    let log = Seq::<Visit>::empty().push(Visit { order: none, state: initial });
    reveal(crate::items::visits::opened);
    assert(log[0].order == none);
    assert(crate::items::visits::opened(log, 0, prerequisites.len()));
    assert(crate::items::ordering::may_follow(prerequisites, none, 0));
    assert(crate::items::visits::search_stops(step, initial, prerequisites, 0, error));
    if crate::items::visits::search_finds(step, initial, prerequisites, found) {
        crate::items::visits::search_that_finds_does_not_fail(
            step,
            initial,
            prerequisites,
            found,
            0,
            error,
        );
    }
    assert forall|index: usize, other: ItemRepositoryError|
        !crate::items::visits::first_dead_end(step, initial, prerequisites, index, other) by {
        if crate::items::visits::first_dead_end(step, initial, prerequisites, index, other) {
            let straight = choose|straight: Seq<Visit>|
                {
                    &&& crate::items::visits::straight(straight)
                    &&& #[trigger] crate::items::visits::search_log(
                        step,
                        initial,
                        prerequisites,
                        straight,
                        straight.last().order,
                    )
                    &&& crate::items::ordering::may_follow(
                        prerequisites,
                        straight.last().order,
                        index,
                    )
                };
            lemma_first_command_tried(step, initial, prerequisites, straight, error);
        }
    }
}

/// A search that goes on past the first command has tried it.
proof fn lemma_first_command_tried<F: BatchStep>(
    step: F,
    initial: BatchView,
    prerequisites: Seq<Option<usize>>,
    log: Seq<Visit>,
    error: ItemRepositoryError,
)
    requires
        crate::items::ordering::determined(step),
        0 < prerequisites.len(),
        prerequisites[0] is None,
        step.gives(0, initial, Err::<BatchView, ItemRepositoryError>(error)),
        !crate::items::ordering::resolvable(error),
        crate::items::visits::straight(log),
    ensures
        !crate::items::visits::search_log(
            step,
            initial,
            prerequisites,
            log,
            log.last().order,
        ),
{
    reveal(crate::items::visits::search_log);
    reveal(crate::items::visits::linked);
    reveal(crate::items::visits::opened);
    let path = log.last().order;
    if crate::items::visits::search_log(step, initial, prerequisites, log, path) {
        assert(log[0].order.len() == 0);
        assert(crate::items::visits::linked(
            step,
            initial,
            prerequisites,
            log,
            0,
            log[0].order,
            log[0].state,
        ));
        assert(log[0].state == initial);
        assert(crate::items::visits::opened(log, 0, prerequisites.len()));
        assert(crate::items::ordering::may_follow(prerequisites, log[0].order, 0));
        if path.len() > 0 && path[0] == 0 {
            crate::items::visits::visited_orders_are_allowed(step, initial, prerequisites, log, path);
            let states = choose|states: Seq<BatchView>| #[trigger]
                crate::items::ordering::passes(step, path, states) && states[0] == initial
                    && states[path.len() as int] == log.last().state;
            assert(step.gives(path[0], states[0], Ok::<BatchView, ItemRepositoryError>(states[1])));
            assert(Err::<BatchView, ItemRepositoryError>(error) == Ok::<BatchView, ItemRepositoryError>(
                states[1],
            ));
        } else {
            assert(crate::items::visits::below_path(log[0].order, path, 0));
            assert(crate::items::visits::tried_next(step, log, 0, 0));
            if exists|j: int|
                0 < j < log.len() && (#[trigger] log[j]).order == log[0].order.push(0) && step.gives(
                    0,
                    log[0].state,
                    Ok::<BatchView, ItemRepositoryError>(log[j].state),
                ) {
                let j = choose|j: int|
                    0 < j < log.len() && (#[trigger] log[j]).order == log[0].order.push(0)
                        && step.gives(
                        0,
                        log[0].state,
                        Ok::<BatchView, ItemRepositoryError>(log[j].state),
                    );
                assert(Err::<BatchView, ItemRepositoryError>(error) == Ok::<
                    BatchView,
                    ItemRepositoryError,
                >(log[j].state));
            } else {
                let other = choose|other: ItemRepositoryError|
                    crate::items::ordering::resolvable(other) && #[trigger] step.gives(
                        0,
                        log[0].state,
                        Err::<BatchView, ItemRepositoryError>(other),
                    );
                assert(Err::<BatchView, ItemRepositoryError>(error) == Err::<
                    BatchView,
                    ItemRepositoryError,
                >(other));
            }
        }
    }
}

/// Whether the rules leave the identity of an item, its place and whether it is in the trash
/// alone where they have no say in them: the content of a command is that of its target, and
/// the execution state of a parent is all that is derived anew.
pub open spec fn rules_keep_places<
    'a,
    C: Fn(&ProposalCommand, Option<&Item>) -> Result<Item, ItemRepositoryError>,
    R: Fn(&Item, bool) -> Result<Item, ItemRepositoryError>,
    G: Fn(&BTreeMap<Uuid, Item>) -> Result<(), ItemRepositoryError>,
>(batch: CommandBatch<'a, C, R, G>) -> bool {
    &&& forall|command: &ProposalCommand, current: Option<&Item>, made: Item| #[trigger]
        call_ensures(*batch.content, (command, current), Ok::<Item, ItemRepositoryError>(made))
            ==> made.id == command.spec_target()
    &&& forall|item: &Item, has_children: bool, next: Item| #[trigger]
        call_ensures(*batch.refresh, (item, has_children), Ok::<Item, ItemRepositoryError>(next))
            ==> next.id == item.id && next.parent_id == item.parent_id && next.deleted_at
            == item.deleted_at
}

/// Whether two sets of items agree on where an item is: whether it is there, under which
/// parent, and whether in the trash.
pub open spec fn same_place(a: Map<Uuid, Item>, b: Map<Uuid, Item>, id: Uuid) -> bool {
    &&& a.contains_key(id) == b.contains_key(id)
    &&& a.contains_key(id) ==> a[id].parent_id == b[id].parent_id && a[id].deleted_at
        == b[id].deleted_at
}

proof fn lemma_refresh_keeps_places<R: Fn(&Item, bool) -> Result<Item, ItemRepositoryError>>(
    refresh: R,
    parents: Seq<Uuid>,
    states: Seq<Map<Uuid, Item>>,
    k: int,
    id: Uuid,
)
    requires
        forall|item: &Item, has_children: bool, next: Item| #[trigger]
            call_ensures(refresh, (item, has_children), Ok::<Item, ItemRepositoryError>(next))
                ==> next.parent_id == item.parent_id && next.deleted_at == item.deleted_at,
        crate::items::projection::refresh_passes(refresh, parents, states),
        0 <= k <= parents.len(),
    ensures
        same_place(states[0], states[k], id),
    decreases k,
{
    if k > 0 {
        lemma_refresh_keeps_places(refresh, parents, states, k - 1, id);
        let parent = parents[k - 1];
        assert(crate::items::projection::parent_refreshed(
            refresh,
            states[k - 1],
            parent,
            states[k],
        ));
    }
}

/// A command leaves every item but its own where it is.
proof fn lemma_command_keeps_places<
    'a,
    C: Fn(&ProposalCommand, Option<&Item>) -> Result<Item, ItemRepositoryError>,
    R: Fn(&Item, bool) -> Result<Item, ItemRepositoryError>,
    G: Fn(&BTreeMap<Uuid, Item>) -> Result<(), ItemRepositoryError>,
>(batch: CommandBatch<'a, C, R, G>, index: usize, state: BatchView, next: BatchView, id: Uuid)
    requires
        rules_keep_places(batch),
        batch.gives(index, state, Ok::<BatchView, ItemRepositoryError>(next)),
        id != batch.commands@[index as int].spec_target(),
    ensures
        same_place(state.items, next.items, id),
{
    let command = batch.commands@[index as int];
    let (made, parents) = crate::items::batch::lemma_led(
        *batch.policy,
        *batch.content,
        *batch.refresh,
        command,
        state,
        next.items,
    );
    let from = crate::items::projection::placed(*batch.policy, state.items, made);
    let states = choose|states: Seq<Map<Uuid, Item>>| #[trigger]
        crate::items::projection::refresh_passes(*batch.refresh, parents, states) && states[0]
            == from && states[parents.len() as int] == next.items;
    lemma_refresh_keeps_places(*batch.refresh, parents, states, parents.len() as int, id);
    assert(made.id == command.spec_target());
    assert(same_place(state.items, from, id));
}

/// An item stays where it is until its own command is carried out.
proof fn lemma_places_kept<
    'a,
    C: Fn(&ProposalCommand, Option<&Item>) -> Result<Item, ItemRepositoryError>,
    R: Fn(&Item, bool) -> Result<Item, ItemRepositoryError>,
    G: Fn(&BTreeMap<Uuid, Item>) -> Result<(), ItemRepositoryError>,
>(
    batch: CommandBatch<'a, C, R, G>,
    order: Seq<usize>,
    states: Seq<BatchView>,
    k: int,
    id: Uuid,
)
    requires
        rules_keep_places(batch),
        crate::items::ordering::passes(batch, order, states),
        0 <= k <= order.len(),
        forall|n: int|
            0 <= n < k ==> batch.commands@[#[trigger] order[n] as int].spec_target() != id,
    ensures
        same_place(states[0].items, states[k].items, id),
    decreases k,
{
    if k > 0 {
        lemma_places_kept(batch, order, states, k - 1, id);
        assert(batch.gives(
            order[k - 1],
            states[k - 1],
            Ok::<BatchView, ItemRepositoryError>(states[k]),
        ));
        lemma_command_keeps_places(batch, order[k - 1], states[k - 1], states[k], id);
    }
}

/// Whether no two commands of a batch are about the same item.
pub open spec fn targets_differ(commands: Seq<ProposalCommand>) -> bool {
    forall|i: int, j: int|
        0 <= i < j < commands.len() ==> (#[trigger] commands[i]).spec_target() != (
        #[trigger] commands[j]).spec_target()
}

/// An item that comes back from the trash together with its parent comes back after it: in
/// whatever order the two commands are listed, the batch is carried out with the parent first.
pub proof fn parent_comes_back_before_its_child<
    'a,
    C: Fn(&ProposalCommand, Option<&Item>) -> Result<Item, ItemRepositoryError>,
    R: Fn(&Item, bool) -> Result<Item, ItemRepositoryError>,
    G: Fn(&BTreeMap<Uuid, Item>) -> Result<(), ItemRepositoryError>,
>(
    batch: CommandBatch<'a, C, R, G>,
    start: BatchView,
    waits: Seq<Option<usize>>,
    order: Seq<usize>,
    child_at: int,
    parent_at: int,
    child: Uuid,
    parent: Uuid,
)
    requires
        rules_keep_places(batch),
        targets_differ(batch.commands@),
        waits.len() == batch.commands@.len(),
        crate::items::ordering::workable_order(batch, start, waits, order),
        0 <= child_at < order.len(),
        0 <= parent_at < order.len(),
        batch.commands@[order[child_at] as int] is RestoreItem,
        batch.commands@[order[child_at] as int]->RestoreItem_item_id == child,
        batch.commands@[order[parent_at] as int] is RestoreItem,
        batch.commands@[order[parent_at] as int]->RestoreItem_item_id == parent,
        child != parent,
        start.items.contains_key(child),
        start.items[child].parent_id == Some(parent),
        start.items.contains_key(parent),
        start.items[parent].deleted_at is Some,
    ensures
        parent_at < child_at,
{
    let last = choose|last: BatchView| crate::items::ordering::reaches(batch, start, order, last);
    let states = choose|states: Seq<BatchView>| #[trigger]
        crate::items::ordering::passes(batch, order, states) && states[0] == start
            && states[order.len() as int] == last;
    if child_at < parent_at {
        lemma_only_target(batch, order, child_at, child_at);
        lemma_only_target(batch, order, parent_at, child_at);
        lemma_places_kept(batch, order, states, child_at, child);
        lemma_places_kept(batch, order, states, child_at, parent);
        assert(batch.gives(
            order[child_at],
            states[child_at],
            Ok::<BatchView, ItemRepositoryError>(states[child_at + 1]),
        ));
        assert(false);
    }
}

proof fn lemma_only_target<
    'a,
    C: Fn(&ProposalCommand, Option<&Item>) -> Result<Item, ItemRepositoryError>,
    R: Fn(&Item, bool) -> Result<Item, ItemRepositoryError>,
    G: Fn(&BTreeMap<Uuid, Item>) -> Result<(), ItemRepositoryError>,
>(batch: CommandBatch<'a, C, R, G>, order: Seq<usize>, at: int, k: int)
    requires
        targets_differ(batch.commands@),
        order.no_duplicates(),
        forall|n: int| 0 <= n < order.len() ==> #[trigger] order[n] < batch.commands@.len(),
        0 <= k <= at < order.len(),
    ensures
        forall|n: int|
            0 <= n < k ==> batch.commands@[#[trigger] order[n] as int].spec_target()
                != batch.commands@[order[at] as int].spec_target(),
{
    assert forall|n: int| 0 <= n < k implies batch.commands@[
        #[trigger] order[n] as int
    ].spec_target() != batch.commands@[order[at] as int].spec_target() by {
        let a = order[n] as int;
        let b = order[at] as int;
        assert(order[n] != order[at]);
        if a < b {
            assert(batch.commands@[a].spec_target() != batch.commands@[b].spec_target());
        } else {
            assert(batch.commands@[b].spec_target() != batch.commands@[a].spec_target());
        }
    }
}

/// An item that goes to the trash together with a live child of it goes there after it.
pub proof fn child_goes_to_the_trash_before_its_parent<
    'a,
    C: Fn(&ProposalCommand, Option<&Item>) -> Result<Item, ItemRepositoryError>,
    R: Fn(&Item, bool) -> Result<Item, ItemRepositoryError>,
    G: Fn(&BTreeMap<Uuid, Item>) -> Result<(), ItemRepositoryError>,
>(
    batch: CommandBatch<'a, C, R, G>,
    start: BatchView,
    waits: Seq<Option<usize>>,
    order: Seq<usize>,
    child_at: int,
    parent_at: int,
    child: Uuid,
    parent: Uuid,
)
    requires
        rules_keep_places(batch),
        targets_differ(batch.commands@),
        waits.len() == batch.commands@.len(),
        crate::items::ordering::workable_order(batch, start, waits, order),
        0 <= child_at < order.len(),
        0 <= parent_at < order.len(),
        batch.commands@[order[child_at] as int] is TrashItem,
        batch.commands@[order[child_at] as int]->TrashItem_item_id == child,
        batch.commands@[order[parent_at] as int] is TrashItem,
        batch.commands@[order[parent_at] as int]->TrashItem_item_id == parent,
        child != parent,
        start.items.contains_key(child),
        start.items[child].deleted_at is None,
        start.items[child].parent_id == Some(parent),
    ensures
        child_at < parent_at,
{
    let last = choose|last: BatchView| crate::items::ordering::reaches(batch, start, order, last);
    let states = choose|states: Seq<BatchView>| #[trigger]
        crate::items::ordering::passes(batch, order, states) && states[0] == start
            && states[order.len() as int] == last;
    if parent_at < child_at {
        lemma_only_target(batch, order, child_at, parent_at);
        lemma_places_kept(batch, order, states, parent_at, child);
        assert(crate::items::hierarchy::live(states[parent_at].items, child));
        assert(batch.gives(
            order[parent_at],
            states[parent_at],
            Ok::<BatchView, ItemRepositoryError>(states[parent_at + 1]),
        ));
        assert(false);
    }
}

/// A new item that another command of the batch puts its item under is created before it.
pub proof fn parent_is_created_before_its_children<
    'a,
    C: Fn(&ProposalCommand, Option<&Item>) -> Result<Item, ItemRepositoryError>,
    R: Fn(&Item, bool) -> Result<Item, ItemRepositoryError>,
    G: Fn(&BTreeMap<Uuid, Item>) -> Result<(), ItemRepositoryError>,
>(
    batch: CommandBatch<'a, C, R, G>,
    initial: Map<Uuid, Item>,
    start: BatchView,
    waits: Seq<Option<usize>>,
    order: Seq<usize>,
    child_at: int,
    parent_at: int,
)
    requires
        crate::items::batch::batch_opens(batch, initial, start, waits),
        targets_differ(batch.commands@),
        crate::items::ordering::workable_order(batch, start, waits, order),
        0 <= child_at < order.len(),
        0 <= parent_at < order.len(),
        child_at != parent_at,
        batch.commands@[order[parent_at] as int] is CreateItem,
        match batch.commands@[order[child_at] as int] {
            ProposalCommand::CreateItem { item, .. } => item.parent_id,
            ProposalCommand::ReplaceItem { item, .. } => item.parent_id,
            _ => None,
        } == Some(batch.commands@[order[parent_at] as int]->CreateItem_item.id),
    ensures
        parent_at < child_at,
{
    let commands = batch.commands@;
    let c = order[child_at] as int;
    let p = order[parent_at] as int;
    let id = commands[p]->CreateItem_item.id;
    assert(crate::items::projection::waits_for(commands, c, waits[c]));
    assert(crate::items::projection::creates(commands[p], id));
    assert(waits[c] is Some);
    let at = waits[c]->0 as int;
    assert(crate::items::projection::creates(commands[at], id));
    if at != p {
        if at < p {
            assert(commands[at].spec_target() != commands[p].spec_target());
        } else {
            assert(commands[p].spec_target() != commands[at].spec_target());
        }
    }
    assert(order.take(child_at).contains(order[parent_at]));
    let k = choose|k: int| 0 <= k < order.take(child_at).len() && order.take(child_at)[k]
        == order[parent_at];
    assert(order[k] == order[parent_at]);
}

/// The order in which commands are listed.
pub open spec fn as_listed(count: nat) -> Seq<usize> {
    Seq::new(count, |k: int| k as usize)
}

/// The search comes straight to each beginning of a listed order that works.
proof fn lemma_listed<F: BatchStep>(
    step: F,
    initial: BatchView,
    prerequisites: Seq<Option<usize>>,
    states: Seq<BatchView>,
    k: int,
) -> (log: Seq<Visit>)
    requires
        prerequisites.len() <= crate::items::ordering::MAX_ORDERED_COMMANDS,
        crate::items::ordering::allowed_order(prerequisites, as_listed(prerequisites.len())),
        crate::items::ordering::passes(step, as_listed(prerequisites.len()), states),
        states[0] == initial,
        0 <= k <= prerequisites.len(),
    ensures
        log.len() == k,
        forall|j: int|
            0 <= j < k ==> (#[trigger] log[j]).order == as_listed(prerequisites.len()).take(j),
        crate::items::visits::comes_to(
            step,
            initial,
            prerequisites,
            log,
            as_listed(prerequisites.len()).take(k),
            states[k],
        ),
    decreases k,
{
    let count = prerequisites.len();
    let listed = as_listed(count);
    if k == 0 {
        crate::items::visits::lemma_search_begins(step, initial, prerequisites);
        assert(listed.take(0) =~= Seq::<usize>::empty());
        Seq::empty()
    } else {
        let at = k - 1;
        let log = lemma_listed(step, initial, prerequisites, states, at);
        let order = listed.take(at);
        let seen = log.push(Visit { order, state: states[at] });
        crate::items::visits::lemma_visit(
            step,
            initial,
            prerequisites,
            log,
            order,
            states[at],
        );
        assert forall|j: int| 0 <= j < seen.len() implies (#[trigger] seen[j]).order
            == listed.take(j) by {
            if j < at {
                assert(seen[j] == log[j]);
            }
        }
        crate::items::ordering::lemma_allowed_prefix(prerequisites, listed, at);
        assert forall|j: int| 0 <= j < log.len() implies (#[trigger] log[j]).order == order.take(
            j,
        ) by {
            assert(order.take(j) =~= listed.take(j));
        }
        crate::items::ordering::lemma_straight(prerequisites, order, log, states[at]);
        lemma_skip_done(step, initial, prerequisites, seen, order, at);
        assert(listed[at] == at as usize);
        assert(prerequisites[listed[at] as int] is Some ==> order.contains(
            prerequisites[listed[at] as int]->0,
        ));
        assert(!order.contains(at as usize)) by {
            if order.contains(at as usize) {
                let j = choose|j: int| 0 <= j < order.len() && order[j] == at as usize;
                assert(listed[j] == j as usize);
            }
        }
        assert(step.gives(
            listed[at],
            states[at],
            Ok::<BatchView, ItemRepositoryError>(states[at + 1]),
        ));
        crate::items::visits::lemma_enter(
            step,
            initial,
            prerequisites,
            seen,
            at,
            at as usize,
            states[k],
        );
        assert(order.push(at as usize) =~= listed.take(k));
        seen
    }
}

/// The commands that were carried out are passed over.
proof fn lemma_skip_done<F: BatchStep>(
    step: F,
    initial: BatchView,
    prerequisites: Seq<Option<usize>>,
    seen: Seq<Visit>,
    order: Seq<usize>,
    upto: int,
)
    requires
        0 <= upto <= order.len() < usize::MAX,
        seen.len() > 0,
        seen.last().order == order,
        forall|i: int| 0 <= i < order.len() ==> #[trigger] order[i] == i,
        crate::items::visits::search_log(step, initial, prerequisites, seen, order.push(0)),
        forall|j: int|
            0 <= j < seen.len() ==> crate::items::visits::precedes(
                (#[trigger] seen[j]).order,
                order.push(0),
            ),
    ensures
        crate::items::visits::search_log(
            step,
            initial,
            prerequisites,
            seen,
            order.push(upto as usize),
        ),
        forall|j: int|
            0 <= j < seen.len() ==> crate::items::visits::precedes(
                (#[trigger] seen[j]).order,
                order.push(upto as usize),
            ),
    decreases upto,
{
    if upto > 0 {
        lemma_skip_done(step, initial, prerequisites, seen, order, upto - 1);
        assert(order[upto - 1] == upto - 1);
        assert(order.contains((upto - 1) as usize));
        crate::items::visits::lemma_next_command(
            step,
            initial,
            prerequisites,
            seen,
            seen.len() - 1,
            (upto - 1) as usize,
            upto as usize,
        );
    }
}

/// A batch that can be carried out as it is listed is carried out as it is listed.
pub proof fn batch_that_works_as_listed_keeps_its_order<F: BatchStep>(
    step: F,
    initial: BatchView,
    prerequisites: Seq<Option<usize>>,
    found: Seq<usize>,
    index: usize,
    error: ItemRepositoryError,
)
    requires
        crate::items::ordering::determined(step),
        prerequisites.len() <= crate::items::ordering::MAX_ORDERED_COMMANDS,
        crate::items::ordering::workable_order(
            step,
            initial,
            prerequisites,
            as_listed(prerequisites.len()),
        ),
    ensures
        crate::items::visits::search_finds(step, initial, prerequisites, found) ==> found
            == as_listed(prerequisites.len()),
        !crate::items::visits::search_ends(step, initial, prerequisites),
        !crate::items::visits::search_stops(step, initial, prerequisites, index, error),
        !crate::items::visits::search_gives_up(step, initial, prerequisites, index),
{
    let count = prerequisites.len();
    let listed = as_listed(count);
    let last = choose|last: BatchView| crate::items::ordering::reaches(step, initial, listed, last);
    let states = choose|states: Seq<BatchView>| #[trigger]
        crate::items::ordering::passes(step, listed, states) && states[0] == initial
            && states[listed.len() as int] == last;
    let log = lemma_listed(step, initial, prerequisites, states, count as int);
    assert(listed.take(count as int) =~= listed);
    assert(crate::items::visits::search_finds(step, initial, prerequisites, listed));
    if crate::items::visits::search_finds(step, initial, prerequisites, found) {
        crate::items::visits::search_finds_one_order(step, initial, prerequisites, found, listed);
    }
    crate::items::visits::search_that_finds_does_not_fail(
        step,
        initial,
        prerequisites,
        listed,
        index,
        error,
    );
}

} // verus!
