//! What a search for the order of a batch has looked at.
//!
//! The search goes through partial orders, the lowest commands first, and takes back what
//! leads to a dead end. A set of commands that was carried out before, in another order,
//! is not looked into again.
use vstd::prelude::*;

use crate::items::model::ItemRepositoryError;
use crate::items::ordering::{BatchStep, MAX_COMMAND_ORDER_SEARCH_STATES};
use crate::items::projection::BatchView;

verus! {

/// A partial order that a search looked at, with the state that it leads to.
pub ghost struct Visit {
    pub order: Seq<usize>,
    pub state: BatchView,
}

/// Whether a search comes to the order `a` before it comes to the order `b`: `b` continues
/// `a`, or has the command with the higher position where the two part.
#[verifier::opaque]
pub open spec fn precedes(a: Seq<usize>, b: Seq<usize>) -> bool {
    ||| a.len() < b.len() && b.take(a.len() as int) == a
    ||| exists|k: int| crate::items::ordering::parts_at(a, b, k)
}

/// Whether a visit was looked into: no visit before it had carried out the same commands.
#[verifier::opaque]
pub open spec fn opened(log: Seq<Visit>, k: int, count: nat) -> bool {
    forall|j: int|
        0 <= j < k ==> #[trigger] crate::items::ordering::marks(log[j].order, count)
            != crate::items::ordering::marks(log[k].order, count)
}

/// Whether the command at `index` was tried after a visit: it was refused there with an
/// error that another order may take away, or what it leads to was visited.
pub open spec fn tried_next<F: BatchStep>(
    step: F,
    log: Seq<Visit>,
    k: int,
    index: usize,
) -> bool {
    ||| exists|error: ItemRepositoryError|
        crate::items::ordering::resolvable(error) && #[trigger] step.gives(
            index,
            log[k].state,
            Err::<BatchView, ItemRepositoryError>(error),
        )
    ||| exists|j: int|
        k < j < log.len() && (#[trigger] log[j]).order == log[k].order.push(index) && step.gives(
            index,
            log[k].state,
            Ok::<BatchView, ItemRepositoryError>(log[j].state),
        )
}

/// Whether an order is the empty one in the state `initial`, or what one more command leads
/// to after one of the first `bound` visits that was looked into.
#[verifier::opaque]
pub open spec fn linked<F: BatchStep>(
    step: F,
    initial: BatchView,
    prerequisites: Seq<Option<usize>>,
    log: Seq<Visit>,
    bound: int,
    order: Seq<usize>,
    state: BatchView,
) -> bool {
    ||| order.len() == 0 && state == initial
    ||| order.len() > 0 && exists|p: int|
        0 <= p < bound && #[trigger] opened(log, p, prerequisites.len()) && log[p].order
            == order.drop_last() && crate::items::ordering::may_follow(
            prerequisites,
            log[p].order,
            order.last(),
        ) && step.gives(
            order.last(),
            log[p].state,
            Ok::<BatchView, ItemRepositoryError>(state),
        )
}

/// Whether `path` goes on from `order`.
pub open spec fn on_path(order: Seq<usize>, path: Seq<usize>) -> bool {
    order.len() < path.len() && path.take(order.len() as int) == order
}

/// Whether the command at `index` comes before the one with which `path` goes on from
/// `order`, if it goes on from there.
pub open spec fn below_path(order: Seq<usize>, path: Seq<usize>, index: usize) -> bool {
    on_path(order, path) ==> index < path[order.len() as int]
}

/// Whether `log` is what a search has looked at, in turn, when it stands at `path`: every
/// visit is reached from one that was looked into, and after each of these every command
/// was tried that does not wait, up to the one with which `path` goes on.
#[verifier::opaque]
pub open spec fn search_log<F: BatchStep>(
    step: F,
    initial: BatchView,
    prerequisites: Seq<Option<usize>>,
    log: Seq<Visit>,
    path: Seq<usize>,
) -> bool {
    &&& forall|k: int|
        0 <= k < log.len() ==> {
            &&& (#[trigger] log[k]).order.len() < prerequisites.len()
            &&& linked(step, initial, prerequisites, log, k, log[k].order, log[k].state)
        }
    &&& forall|j: int, k: int|
        0 <= j < k < log.len() ==> precedes((#[trigger] log[j]).order, (#[trigger] log[k]).order)
    &&& forall|k: int, index: usize|
        0 <= k < log.len() && opened(log, k, prerequisites.len())
            && #[trigger] crate::items::ordering::may_follow(prerequisites, log[k].order, index)
            && below_path(log[k].order, path, index) ==> tried_next(step, log, k, index)
}

/// Whether a search that has looked at the visits of `log` comes next to `order`, in the
/// state `state`.
pub open spec fn comes_to<F: BatchStep>(
    step: F,
    initial: BatchView,
    prerequisites: Seq<Option<usize>>,
    log: Seq<Visit>,
    order: Seq<usize>,
    state: BatchView,
) -> bool {
    &&& search_log(step, initial, prerequisites, log, order)
    &&& linked(step, initial, prerequisites, log, log.len() as int, order, state)
    &&& forall|k: int| 0 <= k < log.len() ==> precedes((#[trigger] log[k]).order, order)
}

/// Whether a search finds the order `found` of the whole batch.
pub open spec fn search_finds<F: BatchStep>(
    step: F,
    initial: BatchView,
    prerequisites: Seq<Option<usize>>,
    found: Seq<usize>,
) -> bool {
    &&& found.len() == prerequisites.len()
    &&& exists|log: Seq<Visit>, last: BatchView|
        log.len() <= MAX_COMMAND_ORDER_SEARCH_STATES && #[trigger] comes_to(
            step,
            initial,
            prerequisites,
            log,
            found,
            last,
        )
}

/// Whether a search ends without an order: it has tried everything.
pub open spec fn search_ends<F: BatchStep>(
    step: F,
    initial: BatchView,
    prerequisites: Seq<Option<usize>>,
) -> bool {
    exists|log: Seq<Visit>|
        0 < log.len() <= MAX_COMMAND_ORDER_SEARCH_STATES && #[trigger] search_log(
            step,
            initial,
            prerequisites,
            log,
            Seq::<usize>::empty(),
        )
}

/// Whether a search stops at the command at `index`, which is refused with an error that no
/// other order takes away.
pub open spec fn search_stops<F: BatchStep>(
    step: F,
    initial: BatchView,
    prerequisites: Seq<Option<usize>>,
    index: usize,
    error: ItemRepositoryError,
) -> bool {
    &&& !crate::items::ordering::resolvable(error)
    &&& exists|log: Seq<Visit>, k: int|
        {
            &&& 0 <= k < log.len() <= MAX_COMMAND_ORDER_SEARCH_STATES
            &&& search_log(step, initial, prerequisites, log, log[k].order.push(index))
            &&& #[trigger] opened(log, k, prerequisites.len())
            &&& forall|j: int|
                0 <= j < log.len() ==> precedes((#[trigger] log[j]).order, log[k].order.push(index))
            &&& crate::items::ordering::may_follow(prerequisites, log[k].order, index)
            &&& step.gives(index, log[k].state, Err::<BatchView, ItemRepositoryError>(error))
        }
}

/// Whether a command is the first that an order does not name.
pub open spec fn first_left(order: Seq<usize>, index: usize) -> bool {
    &&& !order.contains(index)
    &&& forall|i: usize| i < index ==> #[trigger] order.contains(i)
}

/// Whether a search gives up: it has looked at as many partial orders as it may, and comes
/// to another one. `index` is the first command that is left there.
pub open spec fn search_gives_up<F: BatchStep>(
    step: F,
    initial: BatchView,
    prerequisites: Seq<Option<usize>>,
    index: usize,
) -> bool {
    exists|log: Seq<Visit>, order: Seq<usize>, state: BatchView|
        {
            &&& log.len() == MAX_COMMAND_ORDER_SEARCH_STATES
            &&& #[trigger] comes_to(step, initial, prerequisites, log, order, state)
            &&& order.len() < prerequisites.len()
            &&& first_left(order, index)
        }
}

/// Whether `log` leads straight to its last visit, with nothing taken back.
pub open spec fn straight(log: Seq<Visit>) -> bool {
    &&& log.len() > 0
    &&& forall|k: int| 0 <= k < log.len() ==> (#[trigger] log[k]).order.len() == k
}

/// Whether a search comes straight to the command at `index`, which is refused with an error
/// that no other order takes away.
pub open spec fn stops_straight<F: BatchStep>(
    step: F,
    initial: BatchView,
    prerequisites: Seq<Option<usize>>,
    index: usize,
    error: ItemRepositoryError,
) -> bool {
    &&& !crate::items::ordering::resolvable(error)
    &&& exists|log: Seq<Visit>|
        {
            &&& straight(log)
            &&& log.len() <= prerequisites.len()
            &&& #[trigger] search_log(
                step,
                initial,
                prerequisites,
                log,
                log.last().order.push(index),
            )
            &&& opened(log, log.len() - 1, prerequisites.len())
            &&& forall|j: int|
                0 <= j < log.len() ==> precedes(
                    (#[trigger] log[j]).order,
                    log.last().order.push(index),
                )
            &&& crate::items::ordering::may_follow(prerequisites, log.last().order, index)
            &&& step.gives(index, log.last().state, Err::<BatchView, ItemRepositoryError>(error))
        }
}

/// Whether a search comes straight to a dead end, where `error` is what the first command
/// that does not wait, at `index`, is refused with.
pub open spec fn first_dead_end<F: BatchStep>(
    step: F,
    initial: BatchView,
    prerequisites: Seq<Option<usize>>,
    index: usize,
    error: ItemRepositoryError,
) -> bool {
    exists|log: Seq<Visit>|
        {
            &&& straight(log)
            &&& #[trigger] search_log(step, initial, prerequisites, log, log.last().order)
            &&& crate::items::ordering::may_follow(prerequisites, log.last().order, index)
            &&& forall|i: usize|
                i < index ==> !#[trigger] crate::items::ordering::may_follow(
                    prerequisites,
                    log.last().order,
                    i,
                )
            &&& crate::items::ordering::resolvable(error)
            &&& step.gives(index, log.last().state, Err::<BatchView, ItemRepositoryError>(error))
        }
}

/// Whether a search comes straight to an order after which every command that is left waits
/// for another one. `index` is the first command that is left.
pub open spec fn comes_to_circle<F: BatchStep>(
    step: F,
    initial: BatchView,
    prerequisites: Seq<Option<usize>>,
    index: usize,
) -> bool {
    exists|log: Seq<Visit>|
        {
            &&& straight(log)
            &&& #[trigger] search_log(step, initial, prerequisites, log, log.last().order)
            &&& forall|i: usize|
                !#[trigger] crate::items::ordering::may_follow(prerequisites, log.last().order, i)
            &&& first_left(log.last().order, index)
        }
}

proof fn lemma_never_precedes_itself(a: Seq<usize>)
    ensures
        !precedes(a, a),
{
    reveal(precedes);
}

/// What precedes an order precedes what continues it.
pub proof fn lemma_precedes_push(a: Seq<usize>, order: Seq<usize>, index: usize)
    requires
        precedes(a, order) || a == order,
    ensures
        precedes(a, order.push(index)),
{
    reveal(precedes);
    let longer = order.push(index);
    if a == order {
        assert(longer.take(a.len() as int) =~= a);
    } else if a.len() < order.len() && order.take(a.len() as int) == a {
        assert(longer.take(a.len() as int) =~= a);
    } else {
        let k = choose|k: int| crate::items::ordering::parts_at(a, order, k);
        assert(longer.take(k) =~= order.take(k));
        assert(crate::items::ordering::parts_at(a, longer, k));
    }
}

/// What precedes an order precedes the one with a higher last command.
pub proof fn lemma_precedes_next(a: Seq<usize>, order: Seq<usize>, index: usize, next: usize)
    requires
        precedes(a, order.push(index)) || (a.len() > order.len() && a.take(order.len() as int + 1)
            == order.push(index)),
        index < next,
    ensures
        precedes(a, order.push(next)),
{
    reveal(precedes);
    let lower = order.push(index);
    let higher = order.push(next);
    let len = order.len() as int;
    if a.len() > len && a.take(len + 1) == lower {
        assert(a.take(len) =~= a.take(len + 1).take(len));
        assert(a.take(len) =~= order);
        assert(higher.take(len) =~= order);
        assert(a[len] == a.take(len + 1)[len]);
        assert(crate::items::ordering::parts_at(a, higher, len));
    } else if a.len() < lower.len() && lower.take(a.len() as int) == a {
        assert(higher.take(a.len() as int) =~= lower.take(a.len() as int));
    } else {
        let k = choose|k: int| crate::items::ordering::parts_at(a, lower, k);
        assert(higher.take(k) =~= lower.take(k));
        assert(crate::items::ordering::parts_at(a, higher, k));
    }
}

/// Later visits change nothing about what was looked at before.
proof fn lemma_log_grows<F: BatchStep>(
    step: F,
    initial: BatchView,
    prerequisites: Seq<Option<usize>>,
    log: Seq<Visit>,
    visit: Visit,
)
    ensures
        forall|k: int|
            0 <= k < log.len() ==> #[trigger] opened(log.push(visit), k, prerequisites.len())
                == opened(log, k, prerequisites.len()),
        forall|k: int, index: usize|
            0 <= k < log.len() && #[trigger] tried_next(step, log, k, index) ==> tried_next(
                step,
                log.push(visit),
                k,
                index,
            ),
        forall|bound: int, order: Seq<usize>, state: BatchView|
            0 <= bound <= log.len() && #[trigger] linked(
                step,
                initial,
                prerequisites,
                log,
                bound,
                order,
                state,
            ) ==> linked(step, initial, prerequisites, log.push(visit), bound, order, state),
{
    reveal(opened);
    reveal(linked);
    let longer = log.push(visit);
    let count = prerequisites.len();
    assert forall|k: int| 0 <= k < log.len() implies #[trigger] opened(longer, k, count) == opened(
        log,
        k,
        count,
    ) by {
        assert(forall|j: int| 0 <= j <= k ==> longer[j] == log[j]);
        if opened(log, k, count) {
            assert forall|j: int| 0 <= j < k implies #[trigger] crate::items::ordering::marks(
                longer[j].order,
                count,
            ) != crate::items::ordering::marks(longer[k].order, count) by {
                assert(crate::items::ordering::marks(log[j].order, count)
                    != crate::items::ordering::marks(log[k].order, count));
            }
        }
        if opened(longer, k, count) {
            assert forall|j: int| 0 <= j < k implies #[trigger] crate::items::ordering::marks(
                log[j].order,
                count,
            ) != crate::items::ordering::marks(log[k].order, count) by {
                assert(crate::items::ordering::marks(longer[j].order, count)
                    != crate::items::ordering::marks(longer[k].order, count));
            }
        }
    }
    assert forall|k: int, index: usize|
        0 <= k < log.len() && #[trigger] tried_next(step, log, k, index) implies tried_next(
        step,
        longer,
        k,
        index,
    ) by {
        assert(longer[k] == log[k]);
        if exists|j: int|
            k < j < log.len() && (#[trigger] log[j]).order == log[k].order.push(index)
                && step.gives(
                index,
                log[k].state,
                Ok::<BatchView, ItemRepositoryError>(log[j].state),
            ) {
            let j = choose|j: int|
                k < j < log.len() && (#[trigger] log[j]).order == log[k].order.push(index)
                    && step.gives(
                    index,
                    log[k].state,
                    Ok::<BatchView, ItemRepositoryError>(log[j].state),
                );
            assert(longer[j] == log[j]);
        }
    }
    assert forall|bound: int, order: Seq<usize>, state: BatchView|
        0 <= bound <= log.len() && #[trigger] linked(
            step,
            initial,
            prerequisites,
            log,
            bound,
            order,
            state,
        ) implies linked(step, initial, prerequisites, longer, bound, order, state) by {
        if !(order.len() == 0 && state == initial) {
            let p = choose|p: int|
                0 <= p < bound && #[trigger] opened(log, p, prerequisites.len()) && log[p].order
                    == order.drop_last() && crate::items::ordering::may_follow(
                    prerequisites,
                    log[p].order,
                    order.last(),
                ) && step.gives(
                    order.last(),
                    log[p].state,
                    Ok::<BatchView, ItemRepositoryError>(state),
                );
            assert(longer[p] == log[p]);
            assert(opened(longer, p, prerequisites.len()));
        }
    }
}

/// The search looks at the order that it comes to. Where the same commands were carried out
/// before, it does not look into it.
pub proof fn lemma_visit<F: BatchStep>(
    step: F,
    initial: BatchView,
    prerequisites: Seq<Option<usize>>,
    log: Seq<Visit>,
    order: Seq<usize>,
    state: BatchView,
)
    requires
        comes_to(step, initial, prerequisites, log, order, state),
        order.len() < prerequisites.len(),
    ensures
        ({
            let longer = log.push(Visit { order, state });
            &&& search_log(step, initial, prerequisites, longer, order.push(0))
            &&& !opened(longer, log.len() as int, prerequisites.len()) ==> search_log(
                step,
                initial,
                prerequisites,
                longer,
                order,
            )
            &&& forall|k: int|
                0 <= k < longer.len() ==> precedes((#[trigger] longer[k]).order, order.push(0))
        }),
{
    reveal(search_log);
    let visit = Visit { order, state };
    let longer = log.push(visit);
    let at = log.len() as int;
    let count = prerequisites.len();
    let next = order.push(0);
    lemma_log_grows(step, initial, prerequisites, log, visit);
    assert forall|k: int| 0 <= k < longer.len() implies {
        &&& (#[trigger] longer[k]).order.len() < prerequisites.len()
        &&& linked(step, initial, prerequisites, longer, k, longer[k].order, longer[k].state)
    } by {
        if k < at {
            assert(longer[k] == log[k]);
            assert(linked(step, initial, prerequisites, log, k, log[k].order, log[k].state));
        } else {
            assert(linked(step, initial, prerequisites, log, at, order, state));
        }
    }
    assert forall|j: int, k: int| 0 <= j < k < longer.len() implies precedes(
        (#[trigger] longer[j]).order,
        (#[trigger] longer[k]).order,
    ) by {
        assert(longer[j] == log[j]);
        if k < at {
            assert(longer[k] == log[k]);
        }
    }
    assert forall|k: int| 0 <= k < longer.len() implies precedes(
        (#[trigger] longer[k]).order,
        next,
    ) by {
        if k < at {
            assert(longer[k] == log[k]);
        }
        lemma_precedes_push(longer[k].order, order, 0);
    }
    assert forall|k: int, index: usize|
        0 <= k < longer.len() && opened(longer, k, count)
            && #[trigger] crate::items::ordering::may_follow(prerequisites, longer[k].order, index)
            && below_path(longer[k].order, next, index) implies tried_next(
        step,
        longer,
        k,
        index,
    ) by {
        let here = longer[k].order;
        if k < at {
            assert(longer[k] == log[k]);
            if on_path(here, order) {
                assert(next.take(here.len() as int) =~= order.take(here.len() as int));
                assert(next[here.len() as int] == order[here.len() as int]);
            }
            assert(tried_next(step, log, k, index));
        } else {
            assert(next.take(here.len() as int) =~= order);
            assert(false);
        }
    }
    if !opened(longer, at, count) {
        assert forall|k: int, index: usize|
            0 <= k < longer.len() && opened(longer, k, count)
                && #[trigger] crate::items::ordering::may_follow(
                prerequisites,
                longer[k].order,
                index,
            ) && below_path(longer[k].order, order, index) implies tried_next(
            step,
            longer,
            k,
            index,
        ) by {
            assert(k < at);
            assert(longer[k] == log[k]);
            assert(tried_next(step, log, k, index));
        }
    }
}

/// Once the command at `index` was tried, or has to wait, the search goes on to the next.
pub proof fn lemma_next_command<F: BatchStep>(
    step: F,
    initial: BatchView,
    prerequisites: Seq<Option<usize>>,
    log: Seq<Visit>,
    at: int,
    index: usize,
    next: usize,
)
    requires
        0 <= at < log.len(),
        search_log(step, initial, prerequisites, log, log[at].order.push(index)),
        next == index + 1,
        crate::items::ordering::may_follow(prerequisites, log[at].order, index) ==> tried_next(
            step,
            log,
            at,
            index,
        ),
        forall|k: int|
            0 <= k < log.len() ==> precedes((#[trigger] log[k]).order, log[at].order.push(index))
                || (log[k].order.len() > log[at].order.len() && log[k].order.take(
                log[at].order.len() as int + 1,
            ) == log[at].order.push(index)),
    ensures
        search_log(step, initial, prerequisites, log, log[at].order.push(next)),
        forall|k: int|
            0 <= k < log.len() ==> precedes((#[trigger] log[k]).order, log[at].order.push(next)),
{
    reveal(search_log);
    let order = log[at].order;
    let len = order.len() as int;
    let path = order.push(index);
    let on = order.push(next);
    assert forall|k: int| 0 <= k < log.len() implies precedes((#[trigger] log[k]).order, on) by {
        lemma_precedes_next(log[k].order, order, index, next);
    }
    assert forall|k: int, i: usize|
        0 <= k < log.len() && opened(log, k, prerequisites.len())
            && #[trigger] crate::items::ordering::may_follow(prerequisites, log[k].order, i)
            && below_path(log[k].order, on, i) implies tried_next(step, log, k, i) by {
        let here = log[k].order;
        let long = here.len() as int;
        if on_path(here, path) {
            if long < len {
                assert(on.take(long) =~= path.take(long));
                assert(on[long] == path[long]);
            } else {
                assert(path.take(long) =~= order);
                assert(here == order);
                assert(on.take(long) =~= order);
                if k != at {
                    lemma_never_precedes_itself(order);
                    if k < at {
                        assert(precedes(log[k].order, log[at].order));
                    } else {
                        assert(precedes(log[at].order, log[k].order));
                    }
                }
                assert(i < next);
            }
        }
    }
}

/// Once every command was tried after a visit, the search is done with it.
pub proof fn lemma_all_tried<F: BatchStep>(
    step: F,
    initial: BatchView,
    prerequisites: Seq<Option<usize>>,
    log: Seq<Visit>,
    order: Seq<usize>,
    count: usize,
)
    requires
        search_log(step, initial, prerequisites, log, order.push(count)),
        count >= prerequisites.len(),
    ensures
        search_log(step, initial, prerequisites, log, order),
{
    reveal(search_log);
    let path = order.push(count);
    assert forall|k: int, i: usize|
        0 <= k < log.len() && opened(log, k, prerequisites.len())
            && #[trigger] crate::items::ordering::may_follow(prerequisites, log[k].order, i)
            && below_path(log[k].order, order, i) implies tried_next(step, log, k, i) by {
        let here = log[k].order;
        let long = here.len() as int;
        if on_path(here, path) {
            if long < order.len() {
                assert(order.take(long) =~= path.take(long));
                assert(order[long] == path[long]);
            } else {
                assert(i < count);
            }
        }
        assert(below_path(here, path, i));
    }
}

/// Before the first visit the search comes to the empty order.
pub proof fn lemma_search_begins<F: BatchStep>(
    step: F,
    initial: BatchView,
    prerequisites: Seq<Option<usize>>,
)
    ensures
        comes_to(
            step,
            initial,
            prerequisites,
            Seq::<Visit>::empty(),
            Seq::<usize>::empty(),
            initial,
        ),
{
    reveal(search_log);
    reveal(linked);
}

/// A command that is accepted after a visit that is looked into leads to where the search
/// goes next.
pub proof fn lemma_enter<F: BatchStep>(
    step: F,
    initial: BatchView,
    prerequisites: Seq<Option<usize>>,
    log: Seq<Visit>,
    at: int,
    index: usize,
    state: BatchView,
)
    requires
        0 <= at < log.len(),
        search_log(step, initial, prerequisites, log, log[at].order.push(index)),
        opened(log, at, prerequisites.len()),
        crate::items::ordering::may_follow(prerequisites, log[at].order, index),
        step.gives(index, log[at].state, Ok::<BatchView, ItemRepositoryError>(state)),
        forall|k: int|
            0 <= k < log.len() ==> precedes((#[trigger] log[k]).order, log[at].order.push(index)),
    ensures
        comes_to(step, initial, prerequisites, log, log[at].order.push(index), state),
{
    reveal(linked);
    let order = log[at].order.push(index);
    assert(order.drop_last() =~= log[at].order);
    assert(order.last() == index);
}

/// Every partial order that a search looks at names commands of the batch, none twice and
/// none before the one that it waits for, and can be carried out; and the search looks at
/// none twice.
pub proof fn visited_orders_are_allowed<F: BatchStep>(
    step: F,
    initial: BatchView,
    prerequisites: Seq<Option<usize>>,
    log: Seq<Visit>,
    path: Seq<usize>,
)
    requires
        search_log(step, initial, prerequisites, log, path),
    ensures
        forall|k: int|
            0 <= k < log.len() ==> {
                &&& crate::items::ordering::allowed_order(prerequisites, (#[trigger] log[k]).order)
                &&& crate::items::ordering::reaches(step, initial, log[k].order, log[k].state)
            },
        forall|j: int, k: int|
            0 <= j < k < log.len() ==> (#[trigger] log[j]).order != (#[trigger] log[k]).order,
{
    assert forall|k: int| 0 <= k < log.len() implies {
        &&& crate::items::ordering::allowed_order(prerequisites, (#[trigger] log[k]).order)
        &&& crate::items::ordering::reaches(step, initial, log[k].order, log[k].state)
    } by {
        lemma_visit_allowed(step, initial, prerequisites, log, path, k);
    }
    assert forall|j: int, k: int| 0 <= j < k < log.len() implies (#[trigger] log[j]).order != (
    #[trigger] log[k]).order by {
        reveal(search_log);
        lemma_never_precedes_itself(log[j].order);
    }
}

proof fn lemma_visit_allowed<F: BatchStep>(
    step: F,
    initial: BatchView,
    prerequisites: Seq<Option<usize>>,
    log: Seq<Visit>,
    path: Seq<usize>,
    k: int,
)
    requires
        search_log(step, initial, prerequisites, log, path),
        0 <= k < log.len(),
    ensures
        crate::items::ordering::allowed_order(prerequisites, log[k].order),
        crate::items::ordering::reaches(step, initial, log[k].order, log[k].state),
    decreases k,
{
    reveal(search_log);
    reveal(linked);
    let order = log[k].order;
    assert(linked(step, initial, prerequisites, log, k, order, log[k].state));
    if order.len() == 0 {
        crate::items::ordering::lemma_reaches_start(step, initial);
        assert(order =~= Seq::<usize>::empty());
    } else {
        let p = choose|p: int|
            0 <= p < k && #[trigger] opened(log, p, prerequisites.len()) && log[p].order
                == order.drop_last() && crate::items::ordering::may_follow(
                prerequisites,
                log[p].order,
                order.last(),
            ) && step.gives(
                order.last(),
                log[p].state,
                Ok::<BatchView, ItemRepositoryError>(log[k].state),
            );
        lemma_visit_allowed(step, initial, prerequisites, log, path, p);
        assert(log[p].order.push(order.last()) =~= order);
        crate::items::ordering::lemma_allowed_push(prerequisites, log[p].order, order.last());
        crate::items::ordering::lemma_reaches_push(
            step,
            initial,
            log[p].order,
            log[p].state,
            order.last(),
            log[k].state,
        );
    }
}

/// The visit from which a visit is reached.
spec fn parent_of(log: Seq<Visit>, k: int, count: nat) -> int {
    choose|p: int|
        0 <= p < k && #[trigger] opened(log, p, count) && log[p].order == log[k].order.drop_last()
}

/// A number for a visit: by which commands were carried out before its last one, and by its
/// last one.
spec fn visit_number(log: Seq<Visit>, k: int, count: nat) -> int {
    if k == 0 {
        0
    } else {
        let p = parent_of(log, k, count);
        1 + crate::items::ordering::mask_value(crate::items::ordering::marks(log[p].order, count))
            * count + log[k].order.last()
    }
}

proof fn lemma_parent<F: BatchStep>(
    step: F,
    initial: BatchView,
    prerequisites: Seq<Option<usize>>,
    log: Seq<Visit>,
    path: Seq<usize>,
    k: int,
)
    requires
        search_log(step, initial, prerequisites, log, path),
        0 < k < log.len(),
    ensures
        ({
            let p = parent_of(log, k, prerequisites.len());
            &&& 0 <= p < k
            &&& opened(log, p, prerequisites.len())
            &&& log[k].order == log[p].order.push(log[k].order.last())
            &&& log[k].order.len() > 0
            &&& log[k].order.last() < prerequisites.len()
        }),
{
    reveal(search_log);
    reveal(linked);
    let order = log[k].order;
    assert(linked(step, initial, prerequisites, log, k, order, log[k].state));
    if order.len() == 0 {
        assert(linked(step, initial, prerequisites, log, 0, log[0].order, log[0].state));
        assert(log[0].order =~= order);
        lemma_never_precedes_itself(order);
        assert(precedes(log[0].order, log[k].order));
    }
    let q = choose|p: int|
        0 <= p < k && #[trigger] opened(log, p, prerequisites.len()) && log[p].order
            == order.drop_last() && crate::items::ordering::may_follow(
            prerequisites,
            log[p].order,
            order.last(),
        ) && step.gives(
            order.last(),
            log[p].state,
            Ok::<BatchView, ItemRepositoryError>(log[k].state),
        );
    assert(opened(log, q, prerequisites.len()));
    assert(order.drop_last().push(order.last()) =~= order);
}

proof fn lemma_numbers_differ<F: BatchStep>(
    step: F,
    initial: BatchView,
    prerequisites: Seq<Option<usize>>,
    log: Seq<Visit>,
    path: Seq<usize>,
    j: int,
    k: int,
)
    requires
        search_log(step, initial, prerequisites, log, path),
        0 <= j < k < log.len(),
    ensures
        visit_number(log, j, prerequisites.len()) != visit_number(log, k, prerequisites.len()),
{
    let count = prerequisites.len() as int;
    lemma_parent(step, initial, prerequisites, log, path, k);
    let q = parent_of(log, k, prerequisites.len());
    let there = crate::items::ordering::marks(log[q].order, prerequisites.len());
    let high = crate::items::ordering::mask_value(there) as int;
    let last = log[k].order.last() as int;
    assert(0 <= high * count) by (nonlinear_arith)
        requires
            0 <= high,
            0 <= count,
    ;
    if j > 0 {
        lemma_parent(step, initial, prerequisites, log, path, j);
        let p = parent_of(log, j, prerequisites.len());
        let here = crate::items::ordering::marks(log[p].order, prerequisites.len());
        let low = crate::items::ordering::mask_value(here) as int;
        let first = log[j].order.last() as int;
        if low * count + first == high * count + last {
            assert(low == high && first == last) by (nonlinear_arith)
                requires
                    low * count + first == high * count + last,
                    0 <= first < count,
                    0 <= last < count,
            ;
            crate::items::ordering::lemma_mask_injective(here, there);
            reveal(opened);
            if p < q {
                assert(crate::items::ordering::marks(log[p].order, prerequisites.len())
                    != crate::items::ordering::marks(log[q].order, prerequisites.len()));
            } else if q < p {
                assert(crate::items::ordering::marks(log[q].order, prerequisites.len())
                    != crate::items::ordering::marks(log[p].order, prerequisites.len()));
            }
            assert(log[j].order == log[k].order);
            visited_orders_are_allowed(step, initial, prerequisites, log, path);
        }
    }
}

/// A batch of at most twelve commands is searched to the end: there are too few partial
/// orders to look at for the search to give up.
pub proof fn small_batches_are_searched_whole<F: BatchStep>(
    step: F,
    initial: BatchView,
    prerequisites: Seq<Option<usize>>,
    log: Seq<Visit>,
    path: Seq<usize>,
)
    requires
        prerequisites.len() <= 12,
        search_log(step, initial, prerequisites, log, path),
    ensures
        log.len() < MAX_COMMAND_ORDER_SEARCH_STATES,
        forall|index: usize| !search_gives_up(step, initial, prerequisites, index),
{
    lemma_few_visits(step, initial, prerequisites, log, path);
    assert forall|index: usize| !search_gives_up(step, initial, prerequisites, index) by {
        if search_gives_up(step, initial, prerequisites, index) {
            let (visits, order, state) = choose|
                visits: Seq<Visit>,
                order: Seq<usize>,
                state: BatchView,
            |
                {
                    &&& visits.len() == MAX_COMMAND_ORDER_SEARCH_STATES
                    &&& #[trigger] comes_to(step, initial, prerequisites, visits, order, state)
                    &&& order.len() < prerequisites.len()
                    &&& first_left(order, index)
                };
            lemma_few_visits(step, initial, prerequisites, visits, order);
        }
    }
}

proof fn lemma_few_visits<F: BatchStep>(
    step: F,
    initial: BatchView,
    prerequisites: Seq<Option<usize>>,
    log: Seq<Visit>,
    path: Seq<usize>,
)
    requires
        prerequisites.len() <= 12,
        search_log(step, initial, prerequisites, log, path),
    ensures
        log.len() < MAX_COMMAND_ORDER_SEARCH_STATES,
{
    let count = prerequisites.len();
    let numbers = Seq::new(log.len(), |k: int| visit_number(log, k, count));
    assert forall|j: int, k: int| 0 <= j < numbers.len() && 0 <= k < numbers.len() && j
        != k implies numbers[j] != numbers[k] by {
        if j < k {
            lemma_numbers_differ(step, initial, prerequisites, log, path, j, k);
        } else {
            lemma_numbers_differ(step, initial, prerequisites, log, path, k, j);
        }
    }
    vstd::arithmetic::power2::lemma2_to64();
    let range = vstd::set_lib::set_int_range(0, 49153);
    vstd::set_lib::lemma_int_range(0, 49153);
    assert(numbers.to_set().subset_of(range)) by {
        assert forall|x: int| numbers.to_set().contains(x) implies range.contains(x) by {
            let k = choose|k: int| 0 <= k < numbers.len() && numbers[k] == x;
            if k > 0 {
                lemma_parent(step, initial, prerequisites, log, path, k);
                let p = parent_of(log, k, prerequisites.len());
                let marked = crate::items::ordering::marks(log[p].order, count);
                let mask = crate::items::ordering::mask_value(marked) as int;
                crate::items::ordering::lemma_mask_bound(marked);
                if count < 12 {
                    vstd::arithmetic::power2::lemma_pow2_strictly_increases(count, 12);
                }
                assert(mask <= 4095);
                assert(0 <= mask * count <= 49140) by (nonlinear_arith)
                    requires
                        0 <= mask <= 4095,
                        0 <= count <= 12,
                ;
            }
        }
    }
    numbers.unique_seq_to_set();
    vstd::set_lib::lemma_len_subset(numbers.to_set(), range);
}

proof fn lemma_precedes_once(a: Seq<usize>, b: Seq<usize>)
    requires
        precedes(a, b),
    ensures
        !precedes(b, a),
        a != b,
{
    reveal(precedes);
    if a == b {
        lemma_never_precedes_itself(a);
    }
    if precedes(b, a) {
        if a.len() < b.len() && b.take(a.len() as int) == a {
            let k = choose|k: int| crate::items::ordering::parts_at(b, a, k);
            assert(a[k] == b.take(a.len() as int)[k]);
        } else {
            let k = choose|k: int| crate::items::ordering::parts_at(a, b, k);
            if b.len() < a.len() && a.take(b.len() as int) == b {
                assert(b[k] == a.take(b.len() as int)[k]);
            } else {
                let j = choose|j: int| crate::items::ordering::parts_at(b, a, j);
                if j < k {
                    assert(a.take(k)[j] == b.take(k)[j]);
                } else if k < j {
                    assert(a.take(j)[k] == b.take(j)[k]);
                }
            }
        }
    }
}

proof fn lemma_precedes_through(a: Seq<usize>, b: Seq<usize>, c: Seq<usize>)
    requires
        precedes(a, b),
        precedes(b, c),
    ensures
        precedes(a, c),
{
    reveal(precedes);
    let short = a.len() as int;
    let mid = b.len() as int;
    if a.len() < b.len() && b.take(short) == a {
        if b.len() < c.len() && c.take(mid) == b {
            assert(c.take(short) =~= c.take(mid).take(short));
        } else {
            let k = choose|k: int| crate::items::ordering::parts_at(b, c, k);
            if k < short {
                assert(a.take(k) =~= b.take(k));
                assert(a[k] == b.take(short)[k]);
                assert(crate::items::ordering::parts_at(a, c, k));
            } else {
                assert(c.take(short) =~= c.take(k).take(short));
                assert(b.take(short) =~= b.take(k).take(short));
            }
        }
    } else {
        let j = choose|j: int| crate::items::ordering::parts_at(a, b, j);
        if b.len() < c.len() && c.take(mid) == b {
            assert(c.take(j) =~= c.take(mid).take(j));
            assert(c[j] == c.take(mid)[j]);
            assert(crate::items::ordering::parts_at(a, c, j));
        } else {
            let k = choose|k: int| crate::items::ordering::parts_at(b, c, k);
            if j < k {
                assert(c.take(j) =~= c.take(k).take(j));
                assert(b.take(j) =~= b.take(k).take(j));
                assert(c.take(k)[j] == b.take(k)[j]);
                assert(crate::items::ordering::parts_at(a, c, j));
            } else {
                assert(a.take(k) =~= a.take(j).take(k));
                assert(b.take(k) =~= b.take(j).take(k));
                if k < j {
                    assert(a.take(j)[k] == b.take(j)[k]);
                }
                assert(crate::items::ordering::parts_at(a, c, k));
            }
        }
    }
}

/// Whether a search with these visits stands at `path`, which goes on from one of them.
spec fn stands<F: BatchStep>(
    step: F,
    initial: BatchView,
    prerequisites: Seq<Option<usize>>,
    log: Seq<Visit>,
    path: Seq<usize>,
) -> bool {
    &&& search_log(step, initial, prerequisites, log, path)
    &&& forall|k: int| 0 <= k < log.len() ==> precedes((#[trigger] log[k]).order, path)
    &&& path.len() == 0 || exists|p: int|
        0 <= p < log.len() && (#[trigger] log[p]).order == path.drop_last()
}

/// Where a search stands, it has looked at every beginning of its path.
proof fn lemma_path_visited<F: BatchStep>(
    step: F,
    initial: BatchView,
    prerequisites: Seq<Option<usize>>,
    log: Seq<Visit>,
    path: Seq<usize>,
    long: int,
) -> (found: int)
    requires
        stands(step, initial, prerequisites, log, path),
        0 <= long < path.len(),
    ensures
        0 <= found < log.len(),
        log[found].order == path.take(long),
    decreases path.len() - long,
{
    if long == path.len() - 1 {
        assert(path.take(long) =~= path.drop_last());
        choose|p: int| 0 <= p < log.len() && (#[trigger] log[p]).order == path.drop_last()
    } else {
        let k = lemma_path_visited(step, initial, prerequisites, log, path, long + 1);
        reveal(search_log);
        reveal(linked);
        let order = log[k].order;
        assert(linked(step, initial, prerequisites, log, k, order, log[k].state));
        let p = choose|p: int|
            0 <= p < k && #[trigger] opened(log, p, prerequisites.len()) && log[p].order
                == order.drop_last() && crate::items::ordering::may_follow(
                prerequisites,
                log[p].order,
                order.last(),
            ) && step.gives(
                order.last(),
                log[p].state,
                Ok::<BatchView, ItemRepositoryError>(log[k].state),
            );
        assert(order.drop_last() =~= path.take(long));
        p
    }
}

/// A visit is what its last command leads to after the visit of what comes before it.
proof fn lemma_link<F: BatchStep>(
    step: F,
    initial: BatchView,
    prerequisites: Seq<Option<usize>>,
    log: Seq<Visit>,
    path: Seq<usize>,
    p: int,
    k: int,
    index: usize,
)
    requires
        search_log(step, initial, prerequisites, log, path),
        0 <= p < log.len(),
        0 <= k < log.len(),
        log[k].order == log[p].order.push(index),
    ensures
        step.gives(index, log[p].state, Ok::<BatchView, ItemRepositoryError>(log[k].state)),
{
    reveal(search_log);
    reveal(linked);
    let order = log[k].order;
    assert(linked(step, initial, prerequisites, log, k, order, log[k].state));
    let q = choose|q: int|
        0 <= q < k && #[trigger] opened(log, q, prerequisites.len()) && log[q].order
            == order.drop_last() && crate::items::ordering::may_follow(
            prerequisites,
            log[q].order,
            order.last(),
        ) && step.gives(
            order.last(),
            log[q].state,
            Ok::<BatchView, ItemRepositoryError>(log[k].state),
        );
    assert(order.drop_last() =~= log[p].order);
    visited_orders_are_allowed(step, initial, prerequisites, log, path);
    assert(q == p);
}

/// A search that has not come to what a command leads to, after a visit that it looked into,
/// stands before it.
proof fn lemma_stands_before<F: BatchStep>(
    step: F,
    initial: BatchView,
    prerequisites: Seq<Option<usize>>,
    log: Seq<Visit>,
    path: Seq<usize>,
    p: int,
    index: usize,
    outcome: Result<BatchView, ItemRepositoryError>,
)
    requires
        crate::items::ordering::determined(step),
        stands(step, initial, prerequisites, log, path),
        0 <= p < log.len(),
        opened(log, p, prerequisites.len()),
        crate::items::ordering::may_follow(prerequisites, log[p].order, index),
        step.gives(index, log[p].state, outcome),
        outcome matches Err(error) ==> !crate::items::ordering::resolvable(error),
    ensures
        ({
            let next = log[p].order.push(index);
            ||| path == next
            ||| precedes(path, next)
            ||| exists|j: int|
                0 <= j < log.len() && (#[trigger] log[j]).order == next && outcome == Ok::<
                    BatchView,
                    ItemRepositoryError,
                >(log[j].state)
        }),
{
    let order = log[p].order;
    let len = order.len() as int;
    let next = order.push(index);
    if below_path(order, path, index) {
        reveal(search_log);
        assert(tried_next(step, log, p, index));
        if exists|error: ItemRepositoryError|
            crate::items::ordering::resolvable(error) && #[trigger] step.gives(
                index,
                log[p].state,
                Err::<BatchView, ItemRepositoryError>(error),
            ) {
            let error = choose|error: ItemRepositoryError|
                crate::items::ordering::resolvable(error) && #[trigger] step.gives(
                    index,
                    log[p].state,
                    Err::<BatchView, ItemRepositoryError>(error),
                );
            assert(outcome == Err::<BatchView, ItemRepositoryError>(error));
        } else {
            let j = choose|j: int|
                p < j < log.len() && (#[trigger] log[j]).order == next && step.gives(
                    index,
                    log[p].state,
                    Ok::<BatchView, ItemRepositoryError>(log[j].state),
                );
            assert(log[j].order == next);
        }
    } else if index > path[len] {
        reveal(precedes);
        assert(next.take(len) =~= order);
        assert(crate::items::ordering::parts_at(path, next, len));
    } else {
        assert(path.take(len + 1) =~= next);
        if path.len() == len + 1 {
            assert(path =~= next);
        } else {
            let j = lemma_path_visited(step, initial, prerequisites, log, path, len + 1);
            lemma_link(step, initial, prerequisites, log, path, p, j, index);
            assert(log[j].order == next);
        }
    }
}

/// Two searches look at the same partial orders, as far as both go.
proof fn lemma_same_visits<F: BatchStep>(
    step: F,
    initial: BatchView,
    prerequisites: Seq<Option<usize>>,
    log: Seq<Visit>,
    path: Seq<usize>,
    other: Seq<Visit>,
    way: Seq<usize>,
    k: int,
)
    requires
        crate::items::ordering::determined(step),
        stands(step, initial, prerequisites, log, path),
        stands(step, initial, prerequisites, other, way),
        0 <= k <= log.len(),
        k <= other.len(),
    ensures
        log.take(k) == other.take(k),
    decreases k,
{
    if k > 0 {
        lemma_same_visits(step, initial, prerequisites, log, path, other, way, k - 1);
        let at = k - 1;
        let a = log[at];
        let b = other[at];
        if at == 0 {
            reveal(search_log);
            reveal(linked);
            assert(linked(step, initial, prerequisites, log, 0, a.order, a.state));
            assert(linked(step, initial, prerequisites, other, 0, b.order, b.state));
            assert(a.order =~= b.order);
        } else {
            let forth = lemma_not_later(step, initial, prerequisites, log, path, other, way, at);
            let back = lemma_not_later(step, initial, prerequisites, other, way, log, path, at);
            if forth && back {
                lemma_precedes_once(a.order, b.order);
            }
        }
        assert(a == b);
        assert(log.take(k) =~= log.take(at).push(a));
        assert(other.take(k) =~= other.take(at).push(b));
    }
}

/// Where two searches agreed so far, the visit of the one is that of the other, or comes
/// after it.
proof fn lemma_not_later<F: BatchStep>(
    step: F,
    initial: BatchView,
    prerequisites: Seq<Option<usize>>,
    log: Seq<Visit>,
    path: Seq<usize>,
    other: Seq<Visit>,
    way: Seq<usize>,
    at: int,
) -> (later: bool)
    requires
        crate::items::ordering::determined(step),
        stands(step, initial, prerequisites, log, path),
        stands(step, initial, prerequisites, other, way),
        0 < at < log.len(),
        at < other.len(),
        log.take(at) == other.take(at),
    ensures
        later ==> precedes(other[at].order, log[at].order),
        !later ==> other[at] == log[at],
{
    lemma_parent(step, initial, prerequisites, log, path, at);
    let p = parent_of(log, at, prerequisites.len());
    let order = log[at].order;
    let index = order.last();
    lemma_link(step, initial, prerequisites, log, path, p, at, index);
    lemma_visit_allowed(step, initial, prerequisites, log, path, at);
    assert(order.take(order.len() - 1) =~= log[p].order);
    assert(log[p].order.push(index)[order.len() - 1] == index);
    assert(!log[p].order.contains(index)) by {
        if log[p].order.contains(index) {
            let i = choose|i: int| 0 <= i < log[p].order.len() && log[p].order[i] == index;
            assert(order[i] == order[order.len() - 1]);
        }
    }
    assert(crate::items::ordering::may_follow(prerequisites, log[p].order, index)) by {
        assert(order[order.len() - 1] == index);
    }
    lemma_opened_alike(log, other, at, p, prerequisites.len());
    lemma_stands_before(
        step,
        initial,
        prerequisites,
        other,
        way,
        p,
        index,
        Ok::<BatchView, ItemRepositoryError>(log[at].state),
    );
    assert(precedes(other[at].order, way));
    if way == order {
        true
    } else if precedes(way, order) {
        lemma_precedes_through(other[at].order, way, order);
        true
    } else {
        let j = choose|j: int|
            0 <= j < other.len() && (#[trigger] other[j]).order == order && Ok::<
                BatchView,
                ItemRepositoryError,
            >(log[at].state) == Ok::<BatchView, ItemRepositoryError>(other[j].state);
        if j < at {
            assert(other.take(at)[j] == other[j]);
            assert(log.take(at)[j] == log[j]);
            visited_orders_are_allowed(step, initial, prerequisites, log, path);
            assert(log[j].order != log[at].order);
        }
        if j == at {
            false
        } else {
            reveal(search_log);
            assert(precedes(other[at].order, other[j].order));
            true
        }
    }
}

/// Searches that agreed so far looked into the same visits.
proof fn lemma_opened_alike(log: Seq<Visit>, other: Seq<Visit>, at: int, p: int, count: nat)
    requires
        0 <= p < at <= log.len(),
        at <= other.len(),
        log.take(at) == other.take(at),
        opened(log, p, count),
    ensures
        other[p] == log[p],
        opened(other, p, count),
{
    reveal(opened);
    assert forall|j: int| 0 <= j <= p implies #[trigger] other[j] == log[j] by {
        assert(log.take(at)[j] == log[j]);
        assert(other.take(at)[j] == other[j]);
    }
    assert forall|j: int| 0 <= j < p implies #[trigger] crate::items::ordering::marks(
        other[j].order,
        count,
    ) != crate::items::ordering::marks(other[p].order, count) by {
        assert(other[j] == log[j]);
        assert(crate::items::ordering::marks(log[j].order, count)
            != crate::items::ordering::marks(log[p].order, count));
    }
}

/// Whether a search stands at a command that does not wait, which has this outcome there.
/// An error is one that no other order takes away.
spec fn stands_at<F: BatchStep>(
    step: F,
    initial: BatchView,
    prerequisites: Seq<Option<usize>>,
    log: Seq<Visit>,
    path: Seq<usize>,
    p: int,
    index: usize,
    outcome: Result<BatchView, ItemRepositoryError>,
) -> bool {
    &&& stands(step, initial, prerequisites, log, path)
    &&& 0 <= p < log.len()
    &&& opened(log, p, prerequisites.len())
    &&& path == log[p].order.push(index)
    &&& crate::items::ordering::may_follow(prerequisites, log[p].order, index)
    &&& step.gives(index, log[p].state, outcome)
    &&& outcome matches Err(error) ==> !crate::items::ordering::resolvable(error)
}

/// A visit has not been looked at by a search that agreed so far, and comes after where that
/// search stands.
proof fn lemma_further_visit<F: BatchStep>(
    step: F,
    initial: BatchView,
    prerequisites: Seq<Option<usize>>,
    log: Seq<Visit>,
    path: Seq<usize>,
    other: Seq<Visit>,
    way: Seq<usize>,
)
    requires
        crate::items::ordering::determined(step),
        stands(step, initial, prerequisites, log, path),
        stands(step, initial, prerequisites, other, way),
        0 < log.len() < other.len(),
        log == other.take(log.len() as int),
    ensures
        path == other[log.len() as int].order || precedes(path, other[log.len() as int].order),
{
    let at = log.len() as int;
    lemma_parent(step, initial, prerequisites, other, way, at);
    let p = parent_of(other, at, prerequisites.len());
    let order = other[at].order;
    let index = order.last();
    lemma_link(step, initial, prerequisites, other, way, p, at, index);
    lemma_visit_allowed(step, initial, prerequisites, other, way, at);
    assert(order.take(order.len() - 1) =~= other[p].order);
    assert(!other[p].order.contains(index)) by {
        if other[p].order.contains(index) {
            let i = choose|i: int| 0 <= i < other[p].order.len() && other[p].order[i] == index;
            assert(order[i] == order[order.len() - 1]);
        }
    }
    assert(crate::items::ordering::may_follow(prerequisites, other[p].order, index)) by {
        assert(order[order.len() - 1] == index);
    }
    assert(log.take(at) =~= log);
    lemma_opened_alike(other, log, at, p, prerequisites.len());
    lemma_stands_before(
        step,
        initial,
        prerequisites,
        log,
        path,
        p,
        index,
        Ok::<BatchView, ItemRepositoryError>(other[at].state),
    );
    if exists|j: int|
        0 <= j < log.len() && (#[trigger] log[j]).order == order && Ok::<
            BatchView,
            ItemRepositoryError,
        >(other[at].state) == Ok::<BatchView, ItemRepositoryError>(log[j].state) {
        let j = choose|j: int|
            0 <= j < log.len() && (#[trigger] log[j]).order == order && Ok::<
                BatchView,
                ItemRepositoryError,
            >(other[at].state) == Ok::<BatchView, ItemRepositoryError>(log[j].state);
        assert(other.take(at)[j] == other[j]);
        visited_orders_are_allowed(step, initial, prerequisites, other, way);
        assert(other[j].order != other[at].order);
    }
}

/// Of two searches the one that went as far looked at where the other one stands, or both
/// stand at the same command.
proof fn lemma_same_stand<F: BatchStep>(
    step: F,
    initial: BatchView,
    prerequisites: Seq<Option<usize>>,
    log: Seq<Visit>,
    path: Seq<usize>,
    p: int,
    index: usize,
    outcome: Result<BatchView, ItemRepositoryError>,
    other: Seq<Visit>,
    way: Seq<usize>,
    q: int,
    next: usize,
    end: Result<BatchView, ItemRepositoryError>,
)
    requires
        crate::items::ordering::determined(step),
        stands_at(step, initial, prerequisites, log, path, p, index, outcome),
        stands_at(step, initial, prerequisites, other, way, q, next, end),
        log.len() <= other.len(),
    ensures
        ({
            ||| path == way && index == next && outcome == end
            ||| exists|j: int|
                0 <= j < other.len() && (#[trigger] other[j]).order == path && outcome == Ok::<
                    BatchView,
                    ItemRepositoryError,
                >(other[j].state)
        }),
{
    let at = log.len() as int;
    lemma_same_visits(step, initial, prerequisites, log, path, other, way, at);
    assert(log.take(at) =~= log);
    lemma_opened_alike(log, other, at, p, prerequisites.len());
    lemma_stands_before(step, initial, prerequisites, other, way, p, index, outcome);
    if !(exists|j: int|
        0 <= j < other.len() && (#[trigger] other[j]).order == path && outcome == Ok::<
            BatchView,
            ItemRepositoryError,
        >(other[j].state)) {
        assert(way == path || precedes(way, path));
        if log.len() < other.len() {
            lemma_further_visit(step, initial, prerequisites, log, path, other, way);
            let b = other[at].order;
            assert(precedes(b, way));
            if way != path {
                lemma_precedes_through(b, way, path);
            }
            lemma_precedes_once(b, path);
        } else {
            assert(other.take(at) =~= other);
            assert(log == other);
            lemma_stands_before(step, initial, prerequisites, log, path, q, next, end);
            if exists|j: int|
                0 <= j < log.len() && (#[trigger] log[j]).order == way && end == Ok::<
                    BatchView,
                    ItemRepositoryError,
                >(log[j].state) {
                let j = choose|j: int|
                    0 <= j < log.len() && (#[trigger] log[j]).order == way && end == Ok::<
                        BatchView,
                        ItemRepositoryError,
                    >(log[j].state);
                assert(precedes(other[j].order, way));
                lemma_never_precedes_itself(way);
            }
            if path != way {
                lemma_precedes_once(way, path);
            }
            assert(path.last() == index && way.last() == next);
            assert(path.drop_last() =~= log[p].order);
            assert(way.drop_last() =~= log[q].order);
            visited_orders_are_allowed(step, initial, prerequisites, log, path);
            assert(p == q);
        }
    }
}

/// A search that ends looked at where any other one stands.
proof fn lemma_ended<F: BatchStep>(
    step: F,
    initial: BatchView,
    prerequisites: Seq<Option<usize>>,
    log: Seq<Visit>,
    path: Seq<usize>,
    p: int,
    index: usize,
    outcome: Result<BatchView, ItemRepositoryError>,
    other: Seq<Visit>,
)
    requires
        crate::items::ordering::determined(step),
        prerequisites.len() <= usize::MAX,
        stands_at(step, initial, prerequisites, log, path, p, index, outcome),
        search_log(step, initial, prerequisites, other, Seq::<usize>::empty()),
        other.len() > 0,
    ensures
        log.len() < other.len(),
        exists|j: int|
            0 <= j < other.len() && (#[trigger] other[j]).order == path && outcome == Ok::<
                BatchView,
                ItemRepositoryError,
            >(other[j].state),
{
    let count = prerequisites.len() as usize;
    let way = Seq::<usize>::empty().push(count);
    lemma_beyond(step, initial, prerequisites, other, count);
    assert forall|order: Seq<usize>|
        order.len() > 0 && order[0] < count implies way != order && !#[trigger] precedes(
        way,
        order,
    ) by {
        reveal(precedes);
        if way.len() < order.len() && order.take(way.len() as int) == way {
            assert(order[0] == order.take(1)[0]);
        }
    }
    lemma_visit_allowed(step, initial, prerequisites, log, path, p);
    assert(path[0] < count) by {
        if log[p].order.len() > 0 {
            assert(log[p].order[0] < count);
        }
    }
    if other.len() < log.len() {
        let at = other.len() as int;
        lemma_same_visits(step, initial, prerequisites, other, way, log, path, at);
        assert(other.take(at) =~= other);
        lemma_further_visit(step, initial, prerequisites, other, way, log, path);
        lemma_visit_allowed(step, initial, prerequisites, log, path, at);
        lemma_parent(step, initial, prerequisites, log, path, at);
        assert(log[at].order[0] < count);
    } else {
        let at = log.len() as int;
        lemma_same_visits(step, initial, prerequisites, log, path, other, way, at);
        assert(log.take(at) =~= log);
        lemma_opened_alike(log, other, at, p, prerequisites.len());
        lemma_stands_before(step, initial, prerequisites, other, way, p, index, outcome);
        if log.len() == other.len() {
            assert(other.take(at) =~= other);
            let j = choose|j: int|
                0 <= j < other.len() && (#[trigger] other[j]).order == path && outcome == Ok::<
                    BatchView,
                    ItemRepositoryError,
                >(other[j].state);
            assert(precedes(log[j].order, path));
            lemma_never_precedes_itself(path);
        }
    }
}

/// A search that has tried everything stands beyond the last command.
proof fn lemma_beyond<F: BatchStep>(
    step: F,
    initial: BatchView,
    prerequisites: Seq<Option<usize>>,
    log: Seq<Visit>,
    count: usize,
)
    requires
        count == prerequisites.len(),
        search_log(step, initial, prerequisites, log, Seq::<usize>::empty()),
        log.len() > 0,
    ensures
        stands(step, initial, prerequisites, log, Seq::<usize>::empty().push(count)),
{
    let path = Seq::<usize>::empty();
    let way = path.push(count);
    assert forall|k: int| 0 <= k < log.len() implies precedes((#[trigger] log[k]).order, way) by {
        reveal(precedes);
        lemma_visit_allowed(step, initial, prerequisites, log, path, k);
        let order = log[k].order;
        if order.len() == 0 {
            assert(way.take(0) =~= order);
        } else {
            assert(order[0] < count);
            assert(order.take(0) =~= way.take(0));
            assert(crate::items::ordering::parts_at(order, way, 0));
        }
    }
    reveal(search_log);
    reveal(linked);
    assert(linked(step, initial, prerequisites, log, 0, log[0].order, log[0].state));
    assert(way.drop_last() =~= log[0].order);
}

/// The log, the visit and the outcome with which a search finds an order.
proof fn lemma_finding<F: BatchStep>(
    step: F,
    initial: BatchView,
    prerequisites: Seq<Option<usize>>,
    log: Seq<Visit>,
    order: Seq<usize>,
    state: BatchView,
) -> (p: int)
    requires
        comes_to(step, initial, prerequisites, log, order, state),
        order.len() > 0,
    ensures
        stands_at(
            step,
            initial,
            prerequisites,
            log,
            order,
            p,
            order.last(),
            Ok::<BatchView, ItemRepositoryError>(state),
        ),
{
    reveal(linked);
    let p = choose|p: int|
        0 <= p < log.len() && #[trigger] opened(log, p, prerequisites.len()) && log[p].order
            == order.drop_last() && crate::items::ordering::may_follow(
            prerequisites,
            log[p].order,
            order.last(),
        ) && step.gives(
            order.last(),
            log[p].state,
            Ok::<BatchView, ItemRepositoryError>(state),
        );
    assert(log[p].order.push(order.last()) =~= order);
    assert(log[p].order == order.drop_last());
    p
}

/// A batch has one order: where the outcome of each command is fixed by the state in which
/// it is tried, no search finds two.
pub proof fn search_finds_one_order<F: BatchStep>(
    step: F,
    initial: BatchView,
    prerequisites: Seq<Option<usize>>,
    a: Seq<usize>,
    b: Seq<usize>,
)
    requires
        crate::items::ordering::determined(step),
        search_finds(step, initial, prerequisites, a),
        search_finds(step, initial, prerequisites, b),
    ensures
        a == b,
{
    if prerequisites.len() == 0 {
        assert(a =~= b);
    } else {
        let (log, last) = choose|log: Seq<Visit>, last: BatchView|
            log.len() <= MAX_COMMAND_ORDER_SEARCH_STATES && #[trigger] comes_to(
                step,
                initial,
                prerequisites,
                log,
                a,
                last,
            );
        let (other, end) = choose|log: Seq<Visit>, last: BatchView|
            log.len() <= MAX_COMMAND_ORDER_SEARCH_STATES && #[trigger] comes_to(
                step,
                initial,
                prerequisites,
                log,
                b,
                last,
            );
        let p = lemma_finding(step, initial, prerequisites, log, a, last);
        let q = lemma_finding(step, initial, prerequisites, other, b, end);
        reveal(search_log);
        if log.len() <= other.len() {
            lemma_same_stand(
                step,
                initial,
                prerequisites,
                log,
                a,
                p,
                a.last(),
                Ok(last),
                other,
                b,
                q,
                b.last(),
                Ok(end),
            );
        } else {
            lemma_same_stand(
                step,
                initial,
                prerequisites,
                other,
                b,
                q,
                b.last(),
                Ok(end),
                log,
                a,
                p,
                a.last(),
                Ok(last),
            );
        }
    }
}

/// A batch that has an order is not refused: where the outcome of each command is fixed by
/// the state in which it is tried, and a search finds an order, no search ends without one,
/// stops at a command or gives up.
pub proof fn search_that_finds_does_not_fail<F: BatchStep>(
    step: F,
    initial: BatchView,
    prerequisites: Seq<Option<usize>>,
    found: Seq<usize>,
    index: usize,
    error: ItemRepositoryError,
)
    requires
        crate::items::ordering::determined(step),
        prerequisites.len() <= usize::MAX,
        search_finds(step, initial, prerequisites, found),
    ensures
        !search_ends(step, initial, prerequisites),
        !search_stops(step, initial, prerequisites, index, error),
        !search_gives_up(step, initial, prerequisites, index),
{
    let (log, last) = choose|log: Seq<Visit>, last: BatchView|
        log.len() <= MAX_COMMAND_ORDER_SEARCH_STATES && #[trigger] comes_to(
            step,
            initial,
            prerequisites,
            log,
            found,
            last,
        );
    if prerequisites.len() == 0 {
        assert forall|visits: Seq<Visit>, path: Seq<usize>|
            visits.len() > 0 implies !search_log(step, initial, prerequisites, visits, path) by {
            reveal(search_log);
            if search_log(step, initial, prerequisites, visits, path) {
                assert(visits[0].order.len() < 0);
            }
        }
    } else {
        let p = lemma_finding(step, initial, prerequisites, log, found, last);
        if search_ends(step, initial, prerequisites) {
            let other = choose|log: Seq<Visit>|
                0 < log.len() <= MAX_COMMAND_ORDER_SEARCH_STATES && #[trigger] search_log(
                    step,
                    initial,
                    prerequisites,
                    log,
                    Seq::<usize>::empty(),
                );
            lemma_ended(
                step,
                initial,
                prerequisites,
                log,
                found,
                p,
                found.last(),
                Ok(last),
                other,
            );
            reveal(search_log);
        }
        if search_stops(step, initial, prerequisites, index, error) {
            let (other, q) = lemma_stopping(step, initial, prerequisites, index, error);
            let way = other[q].order.push(index);
            reveal(search_log);
            if log.len() <= other.len() {
                lemma_same_stand(
                    step,
                    initial,
                    prerequisites,
                    log,
                    found,
                    p,
                    found.last(),
                    Ok(last),
                    other,
                    way,
                    q,
                    index,
                    Err(error),
                );
            } else {
                lemma_same_stand(
                    step,
                    initial,
                    prerequisites,
                    other,
                    way,
                    q,
                    index,
                    Err(error),
                    log,
                    found,
                    p,
                    found.last(),
                    Ok(last),
                );
            }
        }
        if search_gives_up(step, initial, prerequisites, index) {
            let (other, way, end) = choose|
                log: Seq<Visit>,
                order: Seq<usize>,
                state: BatchView,
            |
                {
                    &&& log.len() == MAX_COMMAND_ORDER_SEARCH_STATES
                    &&& #[trigger] comes_to(step, initial, prerequisites, log, order, state)
                    &&& order.len() < prerequisites.len()
                    &&& first_left(order, index)
                };
            if way.len() == 0 {
                reveal(precedes);
                assert(precedes(other[0].order, way));
            }
            let q = lemma_finding(step, initial, prerequisites, other, way, end);
            reveal(search_log);
            lemma_same_stand(
                step,
                initial,
                prerequisites,
                log,
                found,
                p,
                found.last(),
                Ok(last),
                other,
                way,
                q,
                way.last(),
                Ok(end),
            );
        }
    }
}

/// The log and the visit at which a search stops.
proof fn lemma_stopping<F: BatchStep>(
    step: F,
    initial: BatchView,
    prerequisites: Seq<Option<usize>>,
    index: usize,
    error: ItemRepositoryError,
) -> (found: (Seq<Visit>, int))
    requires
        search_stops(step, initial, prerequisites, index, error),
    ensures
        0 <= found.1 < found.0.len() <= MAX_COMMAND_ORDER_SEARCH_STATES,
        stands_at(
            step,
            initial,
            prerequisites,
            found.0,
            found.0[found.1].order.push(index),
            found.1,
            index,
            Err::<BatchView, ItemRepositoryError>(error),
        ),
{
    let (log, k) = choose|log: Seq<Visit>, k: int|
        {
            &&& 0 <= k < log.len() <= MAX_COMMAND_ORDER_SEARCH_STATES
            &&& search_log(step, initial, prerequisites, log, log[k].order.push(index))
            &&& #[trigger] opened(log, k, prerequisites.len())
            &&& forall|j: int|
                0 <= j < log.len() ==> precedes((#[trigger] log[j]).order, log[k].order.push(index))
            &&& crate::items::ordering::may_follow(prerequisites, log[k].order, index)
            &&& step.gives(index, log[k].state, Err::<BatchView, ItemRepositoryError>(error))
        };
    assert(log[k].order.push(index).drop_last() =~= log[k].order);
    (log, k)
}

/// Searches that fail do so at the same command and with the same error, and none of them ends
/// without an order: where the outcome of each command is fixed by the state in which it is
/// tried.
pub proof fn search_fails_one_way<F: BatchStep>(
    step: F,
    initial: BatchView,
    prerequisites: Seq<Option<usize>>,
    index: usize,
    error: ItemRepositoryError,
    other_index: usize,
    other_error: ItemRepositoryError,
)
    requires
        crate::items::ordering::determined(step),
        prerequisites.len() <= usize::MAX,
        crate::items::ordering::search_failed(step, initial, prerequisites, index, error),
    ensures
        !search_ends(step, initial, prerequisites),
        crate::items::ordering::search_failed(
            step,
            initial,
            prerequisites,
            other_index,
            other_error,
        ) ==> other_index == index && other_error == error,
{
    let (log, path, p, at, outcome) = lemma_failing(step, initial, prerequisites, index, error);
    if search_ends(step, initial, prerequisites) {
        let other = choose|log: Seq<Visit>|
            0 < log.len() <= MAX_COMMAND_ORDER_SEARCH_STATES && #[trigger] search_log(
                step,
                initial,
                prerequisites,
                log,
                Seq::<usize>::empty(),
            );
        lemma_ended(step, initial, prerequisites, log, path, p, at, outcome, other);
    }
    if crate::items::ordering::search_failed(
        step,
        initial,
        prerequisites,
        other_index,
        other_error,
    ) {
        let (more, way, q, next, end) = lemma_failing(
            step,
            initial,
            prerequisites,
            other_index,
            other_error,
        );
        if log.len() <= more.len() {
            lemma_same_stand(
                step,
                initial,
                prerequisites,
                log,
                path,
                p,
                at,
                outcome,
                more,
                way,
                q,
                next,
                end,
            );
            if outcome is Ok && log.len() == more.len() {
                lemma_same_visits(
                    step,
                    initial,
                    prerequisites,
                    log,
                    path,
                    more,
                    way,
                    log.len() as int,
                );
                assert(log.take(log.len() as int) =~= log);
                assert(more.take(log.len() as int) =~= more);
                lemma_never_precedes_itself(path);
            }
        } else {
            lemma_same_stand(
                step,
                initial,
                prerequisites,
                more,
                way,
                q,
                next,
                end,
                log,
                path,
                p,
                at,
                outcome,
            );
        }
        assert(path == way && outcome == end);
        if outcome is Ok {
            if index < other_index {
                assert(path.contains(index));
            } else if other_index < index {
                assert(path.contains(other_index));
            }
        }
    }
}

/// Where a search that fails stands: at a command that is refused for good, or, with as many
/// visits as it may make, at one more partial order.
proof fn lemma_failing<F: BatchStep>(
    step: F,
    initial: BatchView,
    prerequisites: Seq<Option<usize>>,
    index: usize,
    error: ItemRepositoryError,
) -> (found: (Seq<Visit>, Seq<usize>, int, usize, Result<BatchView, ItemRepositoryError>))
    requires
        crate::items::ordering::search_failed(step, initial, prerequisites, index, error),
    ensures
        stands_at(
            step,
            initial,
            prerequisites,
            found.0,
            found.1,
            found.2,
            found.3,
            found.4,
        ),
        found.0.len() <= MAX_COMMAND_ORDER_SEARCH_STATES,
        match found.4 {
            Ok(_) => {
                &&& found.0.len() == MAX_COMMAND_ORDER_SEARCH_STATES
                &&& error == ItemRepositoryError::Internal
                &&& first_left(found.1, index)
            },
            Err(refusal) => refusal == error && found.3 == index,
        },
{
    if search_stops(step, initial, prerequisites, index, error) {
        let (log, k) = lemma_stopping(step, initial, prerequisites, index, error);
        (log, log[k].order.push(index), k, index, Err(error))
    } else {
        let (log, order, state) = choose|log: Seq<Visit>, order: Seq<usize>, state: BatchView|
            {
                &&& log.len() == MAX_COMMAND_ORDER_SEARCH_STATES
                &&& #[trigger] comes_to(step, initial, prerequisites, log, order, state)
                &&& order.len() < prerequisites.len()
                &&& first_left(order, index)
            };
        if order.len() == 0 {
            reveal(precedes);
            assert(precedes(log[0].order, order));
        }
        let p = lemma_finding(step, initial, prerequisites, log, order, state);
        (log, order, p, order.last(), Ok(state))
    }
}

/// Where a search has come straight to an order and tried everything there, it stands beyond
/// the last command.
proof fn lemma_straight_end<F: BatchStep>(
    step: F,
    initial: BatchView,
    prerequisites: Seq<Option<usize>>,
    log: Seq<Visit>,
    count: usize,
)
    requires
        straight(log),
        search_log(step, initial, prerequisites, log, log.last().order),
        count == prerequisites.len(),
    ensures
        stands(step, initial, prerequisites, log, log.last().order.push(count)),
{
    let order = log.last().order;
    let way = order.push(count);
    assert(way.drop_last() =~= order);
    assert(log[log.len() - 1].order == way.drop_last());
    assert forall|k: int| 0 <= k < log.len() implies precedes((#[trigger] log[k]).order, way) by {
        reveal(search_log);
        if k < log.len() - 1 {
            assert(precedes(log[k].order, log[log.len() - 1].order));
        }
        lemma_precedes_push(log[k].order, order, count);
    }
    reveal(search_log);
    assert forall|k: int, i: usize|
        0 <= k < log.len() && opened(log, k, prerequisites.len())
            && #[trigger] crate::items::ordering::may_follow(prerequisites, log[k].order, i)
            && below_path(log[k].order, way, i) implies tried_next(step, log, k, i) by {
        let here = log[k].order;
        let long = here.len() as int;
        if on_path(here, order) {
            assert(way.take(long) =~= order.take(long));
            assert(way[long] == order[long]);
        }
        assert(below_path(here, order, i));
    }
}

/// Two searches that come straight to where they stand, with nothing accepted there, come to
/// the same order.
proof fn lemma_straight_alike<F: BatchStep>(
    step: F,
    initial: BatchView,
    prerequisites: Seq<Option<usize>>,
    log: Seq<Visit>,
    path: Seq<usize>,
    other: Seq<Visit>,
    way: Seq<usize>,
)
    requires
        crate::items::ordering::determined(step),
        straight(log),
        straight(other),
        log.len() <= other.len(),
        stands(step, initial, prerequisites, log, path),
        stands(step, initial, prerequisites, other, way),
        path.len() == log.last().order.len() + 1,
        path.drop_last() == log.last().order,
        path.last() >= prerequisites.len(),
    ensures
        log == other,
{
    let at = log.len() as int;
    lemma_same_visits(step, initial, prerequisites, log, path, other, way, at);
    assert(log.take(at) =~= log);
    if log.len() < other.len() {
        lemma_further_visit(step, initial, prerequisites, log, path, other, way);
        lemma_parent(step, initial, prerequisites, other, way, at);
        let p = parent_of(other, at, prerequisites.len());
        let next = other[at].order;
        assert(other[p].order.len() == at - 1);
        assert(other[p].order.len() == p);
        assert(other.take(at)[p] == other[p]);
        assert(log.last() == other[p]);
        let order = log.last().order;
        assert(path =~= order.push(path.last()));
        assert(next == order.push(next.last()));
        reveal(precedes);
        assert(next.last() < path.last());
        if path == next {
            assert(path.last() == next.last());
        } else {
            assert(next.take(order.len() as int) =~= order);
            assert(path.take(order.len() as int) =~= order);
            assert(crate::items::ordering::parts_at(next, path, order.len() as int));
            lemma_precedes_once(next, path);
        }
    } else {
        assert(other.take(at) =~= other);
    }
}

/// A batch comes straight to one end: where the outcome of each command is fixed by the state
/// in which it is tried, the first dead end and its error are fixed, as is the command that is
/// named where the commands wait in a circle, and it is one or the other.
pub proof fn straight_end_is_one<F: BatchStep>(
    step: F,
    initial: BatchView,
    prerequisites: Seq<Option<usize>>,
    index: usize,
    error: ItemRepositoryError,
    other_index: usize,
    other_error: ItemRepositoryError,
)
    requires
        crate::items::ordering::determined(step),
        prerequisites.len() <= usize::MAX,
    ensures
        first_dead_end(step, initial, prerequisites, index, error) && first_dead_end(
            step,
            initial,
            prerequisites,
            other_index,
            other_error,
        ) ==> index == other_index && error == other_error,
        comes_to_circle(step, initial, prerequisites, index) && comes_to_circle(
            step,
            initial,
            prerequisites,
            other_index,
        ) ==> index == other_index,
        !(first_dead_end(step, initial, prerequisites, index, error) && comes_to_circle(
            step,
            initial,
            prerequisites,
            other_index,
        )),
        !(stops_straight(step, initial, prerequisites, index, error) && comes_to_circle(
            step,
            initial,
            prerequisites,
            other_index,
        )),
{
    let count = prerequisites.len() as usize;
    if first_dead_end(step, initial, prerequisites, index, error) {
        let log = lemma_dead_end_log(step, initial, prerequisites, index, error);
        if first_dead_end(step, initial, prerequisites, other_index, other_error) {
            let other = lemma_dead_end_log(step, initial, prerequisites, other_index, other_error);
            lemma_same_end(step, initial, prerequisites, log, other, count);
        }
        if comes_to_circle(step, initial, prerequisites, other_index) {
            let other = lemma_circle_log(step, initial, prerequisites, other_index);
            lemma_same_end(step, initial, prerequisites, log, other, count);
        }
    }
    if comes_to_circle(step, initial, prerequisites, other_index) {
        let other = lemma_circle_log(step, initial, prerequisites, other_index);
        if comes_to_circle(step, initial, prerequisites, index) {
            let log = lemma_circle_log(step, initial, prerequisites, index);
            lemma_same_end(step, initial, prerequisites, log, other, count);
            if index < other_index {
                assert(log.last().order.contains(index));
            } else if other_index < index {
                assert(log.last().order.contains(other_index));
            }
        }
        if stops_straight(step, initial, prerequisites, index, error) {
            lemma_no_circle(step, initial, prerequisites, index, error, other, count);
        }
    }
}

proof fn lemma_dead_end_log<F: BatchStep>(
    step: F,
    initial: BatchView,
    prerequisites: Seq<Option<usize>>,
    index: usize,
    error: ItemRepositoryError,
) -> (log: Seq<Visit>)
    requires
        first_dead_end(step, initial, prerequisites, index, error),
    ensures
        straight(log),
        search_log(step, initial, prerequisites, log, log.last().order),
        crate::items::ordering::may_follow(prerequisites, log.last().order, index),
        forall|i: usize|
            i < index ==> !#[trigger] crate::items::ordering::may_follow(
                prerequisites,
                log.last().order,
                i,
            ),
        step.gives(index, log.last().state, Err::<BatchView, ItemRepositoryError>(error)),
{
    choose|log: Seq<Visit>|
        {
            &&& straight(log)
            &&& #[trigger] search_log(step, initial, prerequisites, log, log.last().order)
            &&& crate::items::ordering::may_follow(prerequisites, log.last().order, index)
            &&& forall|i: usize|
                i < index ==> !#[trigger] crate::items::ordering::may_follow(
                    prerequisites,
                    log.last().order,
                    i,
                )
            &&& crate::items::ordering::resolvable(error)
            &&& step.gives(index, log.last().state, Err::<BatchView, ItemRepositoryError>(error))
        }
}

proof fn lemma_circle_log<F: BatchStep>(
    step: F,
    initial: BatchView,
    prerequisites: Seq<Option<usize>>,
    index: usize,
) -> (log: Seq<Visit>)
    requires
        comes_to_circle(step, initial, prerequisites, index),
    ensures
        straight(log),
        search_log(step, initial, prerequisites, log, log.last().order),
        forall|i: usize|
            !#[trigger] crate::items::ordering::may_follow(prerequisites, log.last().order, i),
        first_left(log.last().order, index),
{
    choose|log: Seq<Visit>|
        {
            &&& straight(log)
            &&& #[trigger] search_log(step, initial, prerequisites, log, log.last().order)
            &&& forall|i: usize|
                !#[trigger] crate::items::ordering::may_follow(prerequisites, log.last().order, i)
            &&& first_left(log.last().order, index)
        }
}

proof fn lemma_same_end<F: BatchStep>(
    step: F,
    initial: BatchView,
    prerequisites: Seq<Option<usize>>,
    log: Seq<Visit>,
    other: Seq<Visit>,
    count: usize,
)
    requires
        crate::items::ordering::determined(step),
        straight(log),
        straight(other),
        search_log(step, initial, prerequisites, log, log.last().order),
        search_log(step, initial, prerequisites, other, other.last().order),
        count == prerequisites.len(),
    ensures
        log == other,
{
    let path = log.last().order.push(count);
    let way = other.last().order.push(count);
    lemma_straight_end(step, initial, prerequisites, log, count);
    lemma_straight_end(step, initial, prerequisites, other, count);
    assert(path.drop_last() =~= log.last().order);
    assert(way.drop_last() =~= other.last().order);
    if log.len() <= other.len() {
        lemma_straight_alike(step, initial, prerequisites, log, path, other, way);
    } else {
        lemma_straight_alike(step, initial, prerequisites, other, way, log, path);
    }
}

/// Where a search stops straight at a command, the commands do not come to wait in a circle.
proof fn lemma_no_circle<F: BatchStep>(
    step: F,
    initial: BatchView,
    prerequisites: Seq<Option<usize>>,
    index: usize,
    error: ItemRepositoryError,
    other: Seq<Visit>,
    count: usize,
)
    requires
        crate::items::ordering::determined(step),
        stops_straight(step, initial, prerequisites, index, error),
        straight(other),
        search_log(step, initial, prerequisites, other, other.last().order),
        count == prerequisites.len(),
    ensures
        exists|i: usize|
            #[trigger] crate::items::ordering::may_follow(prerequisites, other.last().order, i),
{
    let log = choose|log: Seq<Visit>|
        {
            &&& straight(log)
            &&& log.len() <= prerequisites.len()
            &&& #[trigger] search_log(
                step,
                initial,
                prerequisites,
                log,
                log.last().order.push(index),
            )
            &&& opened(log, log.len() - 1, prerequisites.len())
            &&& forall|j: int|
                0 <= j < log.len() ==> precedes(
                    (#[trigger] log[j]).order,
                    log.last().order.push(index),
                )
            &&& crate::items::ordering::may_follow(prerequisites, log.last().order, index)
            &&& step.gives(index, log.last().state, Err::<BatchView, ItemRepositoryError>(error))
        };
    let path = log.last().order.push(index);
    let way = other.last().order.push(count);
    assert(path.drop_last() =~= log.last().order);
    assert(log[log.len() - 1].order == path.drop_last());
    assert(stands(step, initial, prerequisites, log, path));
    lemma_straight_end(step, initial, prerequisites, other, count);
    let at = other.len() as int;
    if at < log.len() {
        lemma_same_visits(step, initial, prerequisites, other, way, log, path, at);
        assert(other.take(at) =~= other);
        assert(way.drop_last() =~= other.last().order);
        lemma_straight_alike(step, initial, prerequisites, other, way, log, path);
    } else {
        let end = log.len() as int;
        lemma_same_visits(step, initial, prerequisites, log, path, other, way, end);
        assert(log.take(end) =~= log);
        let p = end - 1;
        lemma_opened_alike(log, other, end, p, prerequisites.len());
        lemma_stands_before(
            step,
            initial,
            prerequisites,
            other,
            way,
            p,
            index,
            Err::<BatchView, ItemRepositoryError>(error),
        );
        if end < other.len() {
            lemma_further_visit(step, initial, prerequisites, log, path, other, way);
            let next = other[end].order;
            assert(precedes(next, way));
            if way != path {
                lemma_precedes_through(next, way, path);
            }
            lemma_precedes_once(next, path);
        } else {
            assert(other.take(end) =~= other);
            assert(crate::items::ordering::may_follow(prerequisites, other.last().order, index));
        }
    }
}

/// What stops a search straight stops it.
proof fn lemma_straight_stop<F: BatchStep>(
    step: F,
    initial: BatchView,
    prerequisites: Seq<Option<usize>>,
    index: usize,
    error: ItemRepositoryError,
)
    requires
        stops_straight(step, initial, prerequisites, index, error),
        prerequisites.len() <= MAX_COMMAND_ORDER_SEARCH_STATES,
    ensures
        search_stops(step, initial, prerequisites, index, error),
{
    let log = choose|log: Seq<Visit>|
        {
            &&& straight(log)
            &&& log.len() <= prerequisites.len()
            &&& #[trigger] search_log(
                step,
                initial,
                prerequisites,
                log,
                log.last().order.push(index),
            )
            &&& opened(log, log.len() - 1, prerequisites.len())
            &&& forall|j: int|
                0 <= j < log.len() ==> precedes(
                    (#[trigger] log[j]).order,
                    log.last().order.push(index),
                )
            &&& crate::items::ordering::may_follow(prerequisites, log.last().order, index)
            &&& step.gives(index, log.last().state, Err::<BatchView, ItemRepositoryError>(error))
        };
    let k = log.len() - 1;
    assert(log[k] == log.last());
    assert(opened(log, k, prerequisites.len()));
}

/// A batch is answered in one way: where the outcome of each command is fixed by the state in
/// which it is tried, it is refused with one error that concerns one command, and not at all
/// where an order is found.
pub proof fn batch_is_answered_one_way<F: BatchStep>(
    step: F,
    initial: BatchView,
    prerequisites: Seq<Option<usize>>,
    index: usize,
    error: ItemRepositoryError,
    other_index: usize,
    other_error: ItemRepositoryError,
    found: Seq<usize>,
)
    requires
        crate::items::ordering::determined(step),
        prerequisites.len() <= crate::items::ordering::MAX_ORDERED_COMMANDS,
        crate::items::ordering::order_refused(step, initial, prerequisites, index, error),
    ensures
        crate::items::ordering::order_refused(
            step,
            initial,
            prerequisites,
            other_index,
            other_error,
        ) ==> other_index == index && other_error == error,
        !(search_finds(step, initial, prerequisites, found)
            && crate::items::ordering::workable_order(step, initial, prerequisites, found)),
{
    if crate::items::ordering::order_refused(
        step,
        initial,
        prerequisites,
        other_index,
        other_error,
    ) {
        lemma_refused_alike(
            step,
            initial,
            prerequisites,
            index,
            error,
            other_index,
            other_error,
        );
    }
    if search_finds(step, initial, prerequisites, found) {
        search_that_finds_does_not_fail(step, initial, prerequisites, found, index, error);
        if stops_straight(step, initial, prerequisites, index, error) {
            lemma_straight_stop(step, initial, prerequisites, index, error);
        }
    }
}

proof fn lemma_refused_alike<F: BatchStep>(
    step: F,
    initial: BatchView,
    prerequisites: Seq<Option<usize>>,
    index: usize,
    error: ItemRepositoryError,
    other_index: usize,
    other_error: ItemRepositoryError,
)
    requires
        crate::items::ordering::determined(step),
        prerequisites.len() <= crate::items::ordering::MAX_ORDERED_COMMANDS,
        crate::items::ordering::order_refused(step, initial, prerequisites, index, error),
        crate::items::ordering::order_refused(
            step,
            initial,
            prerequisites,
            other_index,
            other_error,
        ),
    ensures
        other_index == index,
        other_error == error,
{
    if stops_straight(step, initial, prerequisites, index, error) {
        lemma_straight_stop(step, initial, prerequisites, index, error);
    }
    if stops_straight(step, initial, prerequisites, other_index, other_error) {
        lemma_straight_stop(step, initial, prerequisites, other_index, other_error);
    }
    straight_end_is_one(
        step,
        initial,
        prerequisites,
        index,
        error,
        other_index,
        other_error,
    );
    straight_end_is_one(
        step,
        initial,
        prerequisites,
        other_index,
        other_error,
        index,
        error,
    );
    let failed = crate::items::ordering::search_failed(step, initial, prerequisites, index, error);
    let other_failed = crate::items::ordering::search_failed(
        step,
        initial,
        prerequisites,
        other_index,
        other_error,
    );
    if failed {
        search_fails_one_way(
            step,
            initial,
            prerequisites,
            index,
            error,
            other_index,
            other_error,
        );
    }
    if other_failed {
        search_fails_one_way(
            step,
            initial,
            prerequisites,
            other_index,
            other_error,
            index,
            error,
        );
    }
    let here = comes_to_circle(step, initial, prerequisites, index);
    let there = comes_to_circle(step, initial, prerequisites, other_index);
    if exists|at: usize, refusal: ItemRepositoryError|
        first_dead_end(step, initial, prerequisites, at, refusal) {
        let (at, refusal) = choose|at: usize, refusal: ItemRepositoryError|
            first_dead_end(step, initial, prerequisites, at, refusal);
        straight_end_is_one(step, initial, prerequisites, at, refusal, index, error);
        straight_end_is_one(step, initial, prerequisites, at, refusal, other_index, other_error);
        assert(!here && !there);
    }
}

} // verus!
