//! The order in which the commands of a batch are carried out.
use std::collections::BTreeSet;

use vstd::prelude::*;

use crate::items::model::ItemRepositoryError;
use crate::items::projection::{BatchView, ProjectedBatchState};
use crate::items::visits::Visit;

verus! {

/// The largest batch of commands that can be put in order.
pub const MAX_ORDERED_COMMANDS: usize = 100;

/// The number of partial orders that a search may look at.
pub const MAX_COMMAND_ORDER_SEARCH_STATES: usize = 50_000;

/// Whether another command, carried out before, may take this refusal away.
pub open spec fn resolvable(error: ItemRepositoryError) -> bool {
    match error {
        ItemRepositoryError::ParentNotFound(_) => true,
        ItemRepositoryError::HierarchyCycle => true,
        ItemRepositoryError::DependencyNotFound(_) => true,
        ItemRepositoryError::CrossRecurringSubtreeDependency { .. } => true,
        ItemRepositoryError::InvalidParentState => true,
        ItemRepositoryError::NonLeafExecutable => true,
        ItemRepositoryError::HasChildren => true,
        ItemRepositoryError::DeletedParent => true,
        ItemRepositoryError::DependencyCycle => true,
        _ => false,
    }
}

/// Whether another command, carried out before, may take this refusal away.
pub fn order_error_can_be_resolved(error: &ItemRepositoryError) -> (result: bool)
    ensures
        result == resolvable(*error),
{
    match error {
        ItemRepositoryError::ParentNotFound(_) => true,
        ItemRepositoryError::HierarchyCycle => true,
        ItemRepositoryError::DependencyNotFound(_) => true,
        ItemRepositoryError::CrossRecurringSubtreeDependency { .. } => true,
        ItemRepositoryError::InvalidParentState => true,
        ItemRepositoryError::NonLeafExecutable => true,
        ItemRepositoryError::HasChildren => true,
        ItemRepositoryError::DeletedParent => true,
        ItemRepositoryError::DependencyCycle => true,
        _ => false,
    }
}

/// The commands of a batch, each of which leads from one state of the batch to the next or
/// is refused.
pub trait BatchStep {
    /// Whether there is a command at this position that can be tried.
    spec fn ready(&self, index: usize) -> bool;

    /// Whether trying the command at this position in a state can have this outcome.
    spec fn gives(
        &self,
        index: usize,
        state: BatchView,
        outcome: Result<BatchView, ItemRepositoryError>,
    ) -> bool;

    /// Tries the command at a position: the state that it leads to, or why it is refused.
    fn take(&self, index: usize, state: &ProjectedBatchState) -> (outcome: Result<
        ProjectedBatchState,
        ItemRepositoryError,
    >)
        requires
            self.ready(index),
        ensures
            self.gives(index, state@, outcome_view(outcome)),
    ;
}

/// The outcome of a command with the view of the state that it leads to.
pub open spec fn outcome_view(outcome: Result<ProjectedBatchState, ItemRepositoryError>) -> Result<
    BatchView,
    ItemRepositoryError,
> {
    match outcome {
        Ok(state) => Ok(state@),
        Err(error) => Err(error),
    }
}

/// Whether `states` are the states before and after each command of `order`.
pub open spec fn passes<F: BatchStep>(
    step: F,
    order: Seq<usize>,
    states: Seq<BatchView>,
) -> bool {
    &&& states.len() == order.len() + 1
    &&& forall|k: int|
        #![trigger order[k]]
        0 <= k < order.len() ==> step.gives(order[k], states[k], Ok::<BatchView, ItemRepositoryError>(states[k + 1]))
}

/// Whether carrying out the commands of `order`, one after the other, can lead
/// from the state `from` to the state `to`.
pub open spec fn reaches<F: BatchStep>(
    step: F,
    from: BatchView,
    order: Seq<usize>,
    to: BatchView,
) -> bool {
    exists|states: Seq<BatchView>| #[trigger]
        passes(step, order, states) && states[0] == from && states[order.len() as int] == to
}

/// Whether `order` names commands of the batch, none twice, and none before the
/// command that it waits for.
pub open spec fn allowed_order(prerequisites: Seq<Option<usize>>, order: Seq<usize>) -> bool {
    &&& order.no_duplicates()
    &&& forall|k: int| 0 <= k < order.len() ==> #[trigger] order[k] < prerequisites.len()
    &&& forall|k: int|
        0 <= k < order.len() && prerequisites[#[trigger] order[k] as int] is Some
            ==> order.take(k).contains(prerequisites[order[k] as int]->0)
}

/// Whether `order` names every command of the batch once, none before the command
/// that it waits for, and can be carried out from the state `initial`.
pub open spec fn workable_order<F: BatchStep>(
    step: F,
    initial: BatchView,
    prerequisites: Seq<Option<usize>>,
    order: Seq<usize>,
) -> bool {
    &&& order.len() == prerequisites.len()
    &&& allowed_order(prerequisites, order)
    &&& exists|last: BatchView| reaches(step, initial, order, last)
}

/// Whether the outcome of a step is fixed by its state.
pub open spec fn determined<F: BatchStep>(step: F) -> bool {
    forall|
        index: usize,
        state: BatchView,
        a: Result<BatchView, ItemRepositoryError>,
        b: Result<BatchView, ItemRepositoryError>,
    |
        step.gives(index, state, a) && step.gives(index, state, b) ==> a == b
}

/// Whether the outcome of a step is fixed by its state, and the state by which
/// commands were carried out, in whatever order.
pub open spec fn settled<F: BatchStep>(
    step: F,
    initial: BatchView,
) -> bool {
    &&& determined(step)
    &&& forall|p: Seq<usize>, q: Seq<usize>, a: BatchView, b: BatchView|
        reaches(step, initial, p, a) && reaches(step, initial, q, b) && p.no_duplicates()
            && q.no_duplicates() && p.to_set() == q.to_set() ==> a == b
}

/// Which commands of a batch of `count` the order names.
pub open spec fn marks(order: Seq<usize>, count: nat) -> Seq<bool> {
    Seq::new(count, |i: int| order.contains(i as usize))
}

/// Whether no workable order begins with the marked commands.
pub open spec fn dead<F: BatchStep>(
    step: F,
    initial: BatchView,
    prerequisites: Seq<Option<usize>>,
    marked: Seq<bool>,
) -> bool {
    forall|order: Seq<usize>, k: int|
        workable_order(step, initial, prerequisites, order) && 0 <= k <= order.len()
            ==> #[trigger] marks(order.take(k), prerequisites.len()) != marked
}

/// Whether two orders agree up to `k`, and `a` has the command with the lower position
/// there.
pub open spec fn parts_at(a: Seq<usize>, b: Seq<usize>, k: int) -> bool {
    0 <= k < a.len() && k < b.len() && a.take(k) == b.take(k) && a[k] < b[k]
}

/// Whether `found` comes before every other workable order: where it parts from one, it
/// has the command with the lower position.
pub open spec fn first_workable<F: BatchStep>(
    step: F,
    initial: BatchView,
    prerequisites: Seq<Option<usize>>,
    found: Seq<usize>,
) -> bool {
    forall|order: Seq<usize>| #[trigger]
        workable_order(step, initial, prerequisites, order) ==> found == order || exists|k: int|
            parts_at(found, order, k)
}

/// Whether the commands of `order` can be followed by the command at `index`: it is not
/// among them, and does not wait.
pub open spec fn may_follow(
    prerequisites: Seq<Option<usize>>,
    order: Seq<usize>,
    index: usize,
) -> bool {
    index < prerequisites.len() && !order.contains(index) && (prerequisites[index as int] is Some
        ==> order.contains(prerequisites[index as int]->0))
}

/// Whether the command at `index` leads nowhere after the commands of `order`: it is
/// refused there, or no workable order begins with it and them.
spec fn leads_nowhere<F: BatchStep>(
    step: F,
    initial: BatchView,
    prerequisites: Seq<Option<usize>>,
    order: Seq<usize>,
    index: usize,
) -> bool {
    ||| exists|state: BatchView, error: ItemRepositoryError|
        reaches(step, initial, order, state) && #[trigger] step.gives(index, state, Err::<BatchView, ItemRepositoryError>(error))
    ||| dead(
        step,
        initial,
        prerequisites,
        marks(order, prerequisites.len()).update(index as int, true),
    )
}

/// Whether the command at `k` is the first that leads somewhere after those before it.
spec fn chosen_at<F: BatchStep>(
    step: F,
    initial: BatchView,
    prerequisites: Seq<Option<usize>>,
    order: Seq<usize>,
    k: int,
) -> bool {
    forall|index: usize|
        index < order[k] && #[trigger] may_follow(prerequisites, order.take(k), index)
            ==> leads_nowhere(step, initial, prerequisites, order.take(k), index)
}

/// Whether every command from `from` on is the first that leads somewhere.
spec fn chosen_from<F: BatchStep>(
    step: F,
    initial: BatchView,
    prerequisites: Seq<Option<usize>>,
    order: Seq<usize>,
    from: int,
) -> bool {
    forall|k: int|
        from <= k < order.len() ==> #[trigger] chosen_at(step, initial, prerequisites, order, k)
}

/// Whether every command waits for an earlier or later command of the batch.
pub open spec fn prerequisites_fit(prerequisites: Seq<Option<usize>>) -> bool {
    forall|i: int|
        0 <= i < prerequisites.len() && (#[trigger] prerequisites[i]) is Some
            ==> prerequisites[i]->0 < prerequisites.len()
}

/// The number whose binary digits are the marks.
pub open spec fn mask_value(marked: Seq<bool>) -> nat
    decreases marked.len(),
{
    if marked.len() == 0 {
        0
    } else {
        2 * mask_value(marked.drop_last()) + if marked.last() {
            1nat
        } else {
            0nat
        }
    }
}

pub(crate) proof fn lemma_mask_bound(marked: Seq<bool>)
    ensures
        mask_value(marked) < vstd::arithmetic::power2::pow2(marked.len()),
    decreases marked.len(),
{
    if marked.len() == 0 {
        vstd::arithmetic::power2::lemma2_to64();
    } else {
        lemma_mask_bound(marked.drop_last());
        vstd::arithmetic::power2::lemma_pow2_unfold(marked.len());
    }
}

proof fn lemma_mask_limit(marked: Seq<bool>)
    requires
        marked.len() <= MAX_ORDERED_COMMANDS,
    ensures
        2 * mask_value(marked) + 1 <= u128::MAX,
{
    lemma_mask_bound(marked);
    vstd::arithmetic::power2::lemma2_to64();
    vstd::arithmetic::power2::lemma2_to64_rest();
    vstd::arithmetic::power2::lemma_pow2_adds(64, 36);
    if marked.len() < MAX_ORDERED_COMMANDS {
        vstd::arithmetic::power2::lemma_pow2_strictly_increases(
            marked.len(),
            MAX_ORDERED_COMMANDS as nat,
        );
    }
    assert(vstd::arithmetic::power2::pow2(100) == 0x10000000000000000 * 0x1000000000);
}

pub(crate) proof fn lemma_mask_injective(a: Seq<bool>, b: Seq<bool>)
    requires
        a.len() == b.len(),
        mask_value(a) == mask_value(b),
    ensures
        a == b,
    decreases a.len(),
{
    if a.len() > 0 {
        assert(a.last() == b.last());
        lemma_mask_injective(a.drop_last(), b.drop_last());
        assert(a =~= a.drop_last().push(a.last()));
        assert(b =~= b.drop_last().push(b.last()));
    } else {
        assert(a =~= b);
    }
}

/// The number whose binary digits are the marks.
fn mask_of(marked: &Vec<bool>) -> (result: u128)
    requires
        marked@.len() <= MAX_ORDERED_COMMANDS,
    ensures
        result == mask_value(marked@),
{
    let mut mask: u128 = 0;
    let mut i: usize = 0;
    while i < marked.len()
        invariant
            i <= marked.len(),
            marked@.len() <= MAX_ORDERED_COMMANDS,
            mask == mask_value(marked@.take(i as int)),
        decreases marked.len() - i,
    {
        proof {
            lemma_mask_limit(marked@.take(i as int));
            assert(marked@.take(i + 1).drop_last() =~= marked@.take(i as int));
        }
        mask = 2 * mask + if marked[i] {
            1
        } else {
            0
        };
        i = i + 1;
    }
    assert(marked@.take(i as int) =~= marked@);
    mask
}

/// A sequence of `count` different numbers below `count` holds all of them.
pub proof fn lemma_full_order(order: Seq<usize>, count: nat)
    requires
        order.no_duplicates(),
        order.len() == count,
        count <= usize::MAX,
        forall|k: int| 0 <= k < order.len() ==> #[trigger] order[k] < count,
    ensures
        forall|i: usize| i < count ==> order.contains(i),
{
    let numbers = order.map_values(|x: usize| x as int);
    assert(numbers.no_duplicates()) by {
        assert forall|i: int, j: int| 0 <= i < numbers.len() && 0 <= j < numbers.len() && i
            != j implies numbers[i] != numbers[j] by {
            assert(order[i] != order[j]);
        }
    }
    numbers.unique_seq_to_set();
    let range = vstd::set_lib::set_int_range(0, count as int);
    vstd::set_lib::lemma_int_range(0, count as int);
    assert(numbers.to_set().subset_of(range)) by {
        assert forall|x: int| numbers.to_set().contains(x) implies range.contains(x) by {
            let k = choose|k: int| 0 <= k < numbers.len() && numbers[k] == x;
            assert(order[k] < count);
        }
    }
    vstd::set_lib::lemma_subset_equality(numbers.to_set(), range);
    assert forall|i: usize| i < count implies order.contains(i) by {
        assert(range.contains(i as int));
        assert(numbers.to_set().contains(i as int));
        let k = choose|k: int| 0 <= k < numbers.len() && numbers[k] == i as int;
        assert(order[k] == i);
    }
}

/// A sequence of fewer than `count` different numbers below `count` misses one.
pub(crate) proof fn lemma_missing_number(order: Seq<usize>, count: nat)
    requires
        order.no_duplicates(),
        order.len() < count,
        count <= usize::MAX,
        forall|k: int| 0 <= k < order.len() ==> #[trigger] order[k] < count,
    ensures
        exists|i: usize| i < count && !order.contains(i),
{
    if forall|i: usize| i < count ==> order.contains(i) {
        let numbers = order.map_values(|x: usize| x as int);
        let range = vstd::set_lib::set_int_range(0, count as int);
        vstd::set_lib::lemma_int_range(0, count as int);
        assert(range.subset_of(numbers.to_set())) by {
            assert forall|x: int| range.contains(x) implies numbers.to_set().contains(x) by {
                assert(order.contains(x as usize));
                let k = choose|k: int| 0 <= k < order.len() && order[k] == x as usize;
                assert(numbers[k] == x);
            }
        }
        numbers.lemma_cardinality_of_set();
        vstd::set_lib::lemma_len_subset(range, numbers.to_set());
        assert(false);
    }
}

pub(crate) proof fn lemma_passes_prefix<F: BatchStep>(
    step: F,
    order: Seq<usize>,
    states: Seq<BatchView>,
    k: int,
)
    requires
        passes(step, order, states),
        0 <= k <= order.len(),
    ensures
        reaches(step, states[0], order.take(k), states[k]),
{
    let prefix = states.take(k + 1);
    assert(passes(step, order.take(k), prefix)) by {
        assert forall|j: int| 0 <= j < order.take(k).len() implies step.gives(
            #[trigger] order.take(k)[j],
            prefix[j],
            Ok::<BatchView, ItemRepositoryError>(prefix[j + 1]),
        ) by {
            assert(order.take(k)[j] == order[j]);
            assert(prefix[j] == states[j] && prefix[j + 1] == states[j + 1]);
        }
    }
    assert(prefix[0] == states[0] && prefix[order.take(k).len() as int] == states[k]);
}

pub(crate) proof fn lemma_allowed_prefix(
    prerequisites: Seq<Option<usize>>,
    order: Seq<usize>,
    k: int,
)
    requires
        allowed_order(prerequisites, order),
        0 <= k <= order.len(),
    ensures
        allowed_order(prerequisites, order.take(k)),
{
    let prefix = order.take(k);
    assert forall|j: int|
        0 <= j < prefix.len() && prerequisites[#[trigger] prefix[j] as int] is Some implies
        prefix.take(j).contains(prerequisites[prefix[j] as int]->0) by {
        assert(prefix[j] == order[j]);
        assert(prefix.take(j) =~= order.take(j));
    }
}

/// What can be carried out can be carried out up to any point.
proof fn lemma_reaches_prefix<F: BatchStep>(
    step: F,
    from: BatchView,
    order: Seq<usize>,
    to: BatchView,
    k: int,
) -> (found: (BatchView, BatchView))
    requires
        reaches(step, from, order, to),
        0 <= k < order.len(),
    ensures
        reaches(step, from, order.take(k), found.0),
        step.gives(order[k], found.0, Ok::<BatchView, ItemRepositoryError>(found.1)),
{
    let states = choose|states: Seq<BatchView>| #[trigger]
        passes(step, order, states) && states[0] == from && states[order.len() as int] == to;
    let prefix = states.take(k + 1);
    assert(passes(step, order.take(k), prefix)) by {
        assert forall|j: int| 0 <= j < order.take(k).len() implies step.gives(#[trigger] order.take(k)[j], prefix[j], Ok::<BatchView, ItemRepositoryError>(prefix[j + 1])) by {
            assert(order.take(k)[j] == order[j]);
            assert(prefix[j] == states[j] && prefix[j + 1] == states[j + 1]);
        }
    }
    assert(prefix[0] == from && prefix[order.take(k).len() as int] == states[k]);
    assert(order[k] == order[k]);
    (states[k], states[k + 1])
}

/// One more command can be carried out after those that were.
pub(crate) proof fn lemma_reaches_push<F: BatchStep>(
    step: F,
    from: BatchView,
    order: Seq<usize>,
    state: BatchView,
    index: usize,
    next: BatchView,
)
    requires
        reaches(step, from, order, state),
        step.gives(index, state, Ok::<BatchView, ItemRepositoryError>(next)),
    ensures
        reaches(step, from, order.push(index), next),
{
    let states = choose|states: Seq<BatchView>| #[trigger]
        passes(step, order, states) && states[0] == from && states[order.len() as int] == state;
    let longer = states.push(next);
    let extended = order.push(index);
    assert(passes(step, extended, longer)) by {
        assert forall|j: int| 0 <= j < extended.len() implies step.gives(#[trigger] extended[j], longer[j], Ok::<BatchView, ItemRepositoryError>(longer[j + 1])) by {
            if j < order.len() {
                assert(extended[j] == order[j]);
                assert(longer[j] == states[j] && longer[j + 1] == states[j + 1]);
            }
        }
    }
    assert(longer[0] == from && longer[extended.len() as int] == next);
}

/// Before the first command the state is the initial one.
pub(crate) proof fn lemma_reaches_start<F: BatchStep>(
    step: F,
    from: BatchView,
)
    ensures
        reaches(step, from, Seq::<usize>::empty(), from),
{
    let states = seq![from];
    assert(passes(step, Seq::<usize>::empty(), states));
    assert(states[0] == from);
}

pub(crate) proof fn lemma_marks_push(order: Seq<usize>, index: usize, count: nat)
    requires
        index < count,
        count <= usize::MAX,
    ensures
        marks(order.push(index), count) == marks(order, count).update(index as int, true),
{
    let extended = order.push(index);
    assert forall|i: int| 0 <= i < count implies marks(extended, count)[i] == marks(
        order,
        count,
    ).update(index as int, true)[i] by {
        if i == index {
            assert(extended[order.len() as int] == index);
        } else if order.contains(i as usize) {
            let k = choose|k: int| 0 <= k < order.len() && order[k] == i as usize;
            assert(extended[k] == i as usize);
        } else if extended.contains(i as usize) {
            let k = choose|k: int| 0 <= k < extended.len() && extended[k] == i as usize;
            assert(order[k] == i as usize);
        }
    }
    assert(marks(extended, count) =~= marks(order, count).update(index as int, true));
}

/// Orders below `count` with the same marks have the same members.
pub(crate) proof fn lemma_marks_same_set(p: Seq<usize>, q: Seq<usize>, count: nat)
    requires
        marks(p, count) == marks(q, count),
        count <= usize::MAX,
        forall|k: int| 0 <= k < p.len() ==> #[trigger] p[k] < count,
        forall|k: int| 0 <= k < q.len() ==> #[trigger] q[k] < count,
    ensures
        p.to_set() == q.to_set(),
{
    assert forall|x: usize| p.contains(x) == q.contains(x) by {
        if x < count {
            assert(marks(p, count)[x as int] == p.contains(x));
            assert(marks(q, count)[x as int] == q.contains(x));
        }
        if p.contains(x) {
            let k = choose|k: int| 0 <= k < p.len() && p[k] == x;
            assert(p[k] < count);
        }
        if q.contains(x) {
            let k = choose|k: int| 0 <= k < q.len() && q[k] == x;
            assert(q[k] < count);
        }
    }
    assert(p.to_set() =~= q.to_set());
}

/// Why the marked commands cannot be continued: each command that may come next
/// is refused, or leads to marks that cannot be continued.
proof fn lemma_dead_end<F: BatchStep>(
    step: F,
    initial: BatchView,
    prerequisites: Seq<Option<usize>>,
    order: Seq<usize>,
    state: BatchView,
)
    requires
        settled(step, initial),
        prerequisites.len() <= usize::MAX,
        prerequisites_fit(prerequisites),
        allowed_order(prerequisites, order),
        order.len() < prerequisites.len(),
        reaches(step, initial, order, state),
        forall|i: usize|
            #![trigger prerequisites[i as int]]
            i < prerequisites.len() && !order.contains(i) && (prerequisites[i as int] is Some
                ==> order.contains(prerequisites[i as int]->0)) ==> {
                ||| exists|error: ItemRepositoryError|
                    step.gives(i, state, Err::<BatchView, ItemRepositoryError>(error))
                ||| dead(
                    step,
                    initial,
                    prerequisites,
                    marks(order, prerequisites.len()).update(i as int, true),
                )
            },
    ensures
        dead(step, initial, prerequisites, marks(order, prerequisites.len())),
{
    let count = prerequisites.len();
    let marked = marks(order, count);
    assert forall|full: Seq<usize>, k: int|
        workable_order(step, initial, prerequisites, full) && 0 <= k
            <= full.len() implies #[trigger] marks(full.take(k), count) != marked by {
        if marks(full.take(k), count) == marked {
            let prefix = full.take(k);
            assert(forall|j: int| 0 <= j < prefix.len() ==> prefix[j] == full[j]);
            lemma_missing_number(order, count);
            let missing = choose|i: usize| i < count && !order.contains(i);
            if k == full.len() {
                assert(prefix =~= full);
                lemma_full_order(full, count);
                assert(full.contains(missing));
                assert(marks(prefix, count)[missing as int]);
                assert(!marked[missing as int]);
                assert(false);
            }
            let next = full[k];
            assert(next < count);
            assert(!prefix.contains(next)) by {
                if prefix.contains(next) {
                    let j = choose|j: int| 0 <= j < prefix.len() && prefix[j] == next;
                    assert(full[j] == full[k]);
                }
            }
            assert(marks(prefix, count)[next as int] == prefix.contains(next));
            assert(marked[next as int] == order.contains(next));
            assert(!order.contains(next));
            if prerequisites[next as int] is Some {
                let wanted = prerequisites[next as int]->0;
                assert(prefix.contains(wanted));
                assert(marks(prefix, count)[wanted as int]);
                assert(order.contains(wanted));
            }
            let last = choose|last: BatchView| reaches(step, initial, full, last);
            let (mid, after) = lemma_reaches_prefix(step, initial, full, last, k);
            lemma_marks_same_set(prefix, order, count);
            assert(prefix.no_duplicates());
            assert(mid == state);
            assert(step.gives(next, state, Ok::<BatchView, ItemRepositoryError>(after)));
            assert(full.take(k + 1) =~= prefix.push(next));
            lemma_marks_push(prefix, next, count);
            assert(marks(full.take(k + 1), count) == marked.update(next as int, true));
            assert(prerequisites[next as int] == prerequisites[next as int]);
            if dead(step, initial, prerequisites, marked.update(next as int, true)) {
                assert(false);
            } else {
                let error = choose|error: ItemRepositoryError|
                    step.gives(next, state, Err::<BatchView, ItemRepositoryError>(error));
                assert(Err::<BatchView, ItemRepositoryError>(error) == Ok::<BatchView, ItemRepositoryError>(after));
                assert(false);
            }
        }
    }
}

/// Where every command that is left waits for another one that is left, the batch
/// has no order at all.
proof fn lemma_stuck(prerequisites: Seq<Option<usize>>, order: Seq<usize>, full: Seq<usize>)
    requires
        prerequisites.len() <= usize::MAX,
        allowed_order(prerequisites, order),
        order.len() < prerequisites.len(),
        forall|i: usize|
            #![trigger prerequisites[i as int]]
            i < prerequisites.len() && !order.contains(i) ==> prerequisites[i as int] is Some
                && !order.contains(prerequisites[i as int]->0),
    ensures
        !(allowed_order(prerequisites, full) && full.len() == prerequisites.len()),
{
    let count = prerequisites.len();
    if allowed_order(prerequisites, full) && full.len() == count {
        lemma_missing_number(order, count);
        lemma_full_order(full, count);
        let missing = choose|i: usize| i < count && !order.contains(i);
        assert(full.contains(missing));
        let at = choose|k: int| 0 <= k < full.len() && full[k] == missing;
        lemma_stuck_at(prerequisites, order, full, at);
    }
}

#[verifier::spinoff_prover]
#[verifier::rlimit(50)]
proof fn lemma_stuck_at(
    prerequisites: Seq<Option<usize>>,
    order: Seq<usize>,
    full: Seq<usize>,
    at: int,
)
    requires
        0 <= at < full.len(),
        forall|i: usize|
            #![trigger prerequisites[i as int]]
            i < prerequisites.len() && !order.contains(i) ==> prerequisites[i as int] is Some
                && !order.contains(prerequisites[i as int]->0),
        allowed_order(prerequisites, full),
    ensures
        order.contains(full[at]),
    decreases at,
{
    let here = full[at];
    assert(here < prerequisites.len());
    if !order.contains(here) {
        assert(prerequisites[here as int] is Some);
        let wanted = prerequisites[here as int]->0;
        assert(full.take(at).contains(wanted));
        let earlier = choose|k: int| 0 <= k < full.take(at).len() && full.take(at)[k] == wanted;
        assert(full[earlier] == wanted);
        lemma_stuck_at(prerequisites, order, full, earlier);
    }
}

proof fn lemma_first_difference(a: Seq<usize>, b: Seq<usize>, k: int) -> (found: int)
    requires
        a.len() == b.len(),
        a != b,
        0 <= k <= a.len(),
        a.take(k) == b.take(k),
    ensures
        k <= found < a.len(),
        a.take(found) == b.take(found),
        a[found] != b[found],
    decreases a.len() - k,
{
    if k == a.len() {
        assert(a.take(k) =~= a);
        assert(b.take(k) =~= b);
        k
    } else if a[k] != b[k] {
        k
    } else {
        assert(a.take(k + 1) =~= a.take(k).push(a[k]));
        assert(b.take(k + 1) =~= b.take(k).push(b[k]));
        lemma_first_difference(a, b, k + 1)
    }
}

/// An order whose every command is the first that leads somewhere is the first workable
/// order.
proof fn lemma_chosen_first<F: BatchStep>(
    step: F,
    initial: BatchView,
    prerequisites: Seq<Option<usize>>,
    found: Seq<usize>,
)
    requires
        settled(step, initial),
        prerequisites.len() <= usize::MAX,
        prerequisites_fit(prerequisites),
        found.len() == prerequisites.len(),
        chosen_from(step, initial, prerequisites, found, 0),
    ensures
        first_workable(step, initial, prerequisites, found),
{
    assert forall|order: Seq<usize>| #[trigger]
        workable_order(step, initial, prerequisites, order) implies found == order || exists|
        k: int,
    |
        parts_at(found, order, k) by {
        if found != order {
            assert(found.take(0) =~= order.take(0));
            let k = lemma_first_difference(found, order, 0);
            let prefix = found.take(k);
            let next = order[k];
            assert(next < prerequisites.len());
            assert(!order.take(k).contains(next)) by {
                if order.take(k).contains(next) {
                    let j = choose|j: int| 0 <= j < order.take(k).len() && order.take(k)[j] == next;
                    assert(order[j] == order[k]);
                }
            }
            assert(may_follow(prerequisites, prefix, next));
            if next < found[k] {
                assert(chosen_at(step, initial, prerequisites, found, k));
                assert(leads_nowhere(step, initial, prerequisites, prefix, next));
                let last = choose|last: BatchView| reaches(step, initial, order, last);
                let (mid, after) = lemma_reaches_prefix(step, initial, order, last, k);
                if dead(
                    step,
                    initial,
                    prerequisites,
                    marks(prefix, prerequisites.len()).update(next as int, true),
                ) {
                    assert(order.take(k + 1) =~= prefix.push(next));
                    lemma_marks_push(prefix, next, prerequisites.len());
                    assert(marks(order.take(k + 1), prerequisites.len()) == marks(
                        prefix,
                        prerequisites.len(),
                    ).update(next as int, true));
                    assert(false);
                } else {
                    let (state, error) = choose|state: BatchView, error: ItemRepositoryError|
                        reaches(step, initial, prefix, state) && #[trigger] step.gives(next, state, Err::<BatchView, ItemRepositoryError>(error));
                    assert(order.take(k).no_duplicates());
                    assert(mid == state);
                    assert(Err::<BatchView, ItemRepositoryError>(error) == Ok::<BatchView, ItemRepositoryError>(
                        after,
                    ));
                    assert(false);
                }
            }
            assert(parts_at(found, order, k));
        }
    }
}

/// Whether `error` is why a batch has no order, and `index` the command that it concerns:
///
/// - before any dead end, a command comes up whose refusal no other order takes away;
/// - after a dead end the search stops at such a command;
/// - after a dead end it has looked at as many partial orders as it may;
/// - the commands wait for each other in a circle, and the first of them is named;
/// - it has tried everything, and the error is that of the first dead end.
///
/// Where the state depends on nothing but which commands were carried out, an error that
/// another order might take away means that there is no workable order.
pub open spec fn order_refused<F: BatchStep>(
    step: F,
    initial: BatchView,
    prerequisites: Seq<Option<usize>>,
    index: usize,
    error: ItemRepositoryError,
) -> bool {
    &&& index < prerequisites.len()
    &&& {
        ||| crate::items::visits::stops_straight(step, initial, prerequisites, index, error)
        ||| {
            &&& search_failed(step, initial, prerequisites, index, error)
            &&& exists|at: usize, refusal: ItemRepositoryError|
                crate::items::visits::first_dead_end(step, initial, prerequisites, at, refusal)
        }
        ||| {
            &&& error == ItemRepositoryError::HierarchyCycle
            &&& crate::items::visits::comes_to_circle(step, initial, prerequisites, index)
            &&& forall|order: Seq<usize>|
                order.len() == prerequisites.len() ==> !allowed_order(prerequisites, order)
        }
        ||| {
            &&& crate::items::visits::first_dead_end(step, initial, prerequisites, index, error)
            &&& crate::items::visits::search_ends(step, initial, prerequisites)
        }
    }
    &&& resolvable(error) && settled(step, initial) ==> forall|order: Seq<usize>|
        !workable_order(step, initial, prerequisites, order)
}

/// Whether the sets of commands in `exhausted` are those that the visits carried out.
spec fn remembers(exhausted: Set<u128>, log: Seq<Visit>, count: nat) -> bool {
    &&& forall|j: int|
        0 <= j < log.len() ==> exhausted.contains(
            mask_value(marks((#[trigger] log[j]).order, count)) as u128,
        )
    &&& forall|marked: Seq<bool>|
        marked.len() == count && #[trigger] exhausted.contains(mask_value(marked) as u128)
            ==> exists|j: int| 0 <= j < log.len() && marks((#[trigger] log[j]).order, count) == marked
}

/// A set of commands is new to the memory where no visit carried it out, and then the visit
/// is looked into.
proof fn lemma_remember(exhausted: Set<u128>, log: Seq<Visit>, visit: Visit, count: nat)
    requires
        count <= MAX_ORDERED_COMMANDS,
        remembers(exhausted, log, count),
    ensures
        remembers(
            exhausted.insert(mask_value(marks(visit.order, count)) as u128),
            log.push(visit),
            count,
        ),
        crate::items::visits::opened(log.push(visit), log.len() as int, count) == !exhausted.contains(
            mask_value(marks(visit.order, count)) as u128,
        ),
{
    reveal(crate::items::visits::opened);
    let here = marks(visit.order, count);
    let longer = log.push(visit);
    let more = exhausted.insert(mask_value(here) as u128);
    lemma_mask_limit(here);
    assert forall|j: int| 0 <= j < longer.len() implies more.contains(
        mask_value(marks((#[trigger] longer[j]).order, count)) as u128,
    ) by {
        if j < log.len() {
            assert(longer[j] == log[j]);
        }
    }
    assert forall|marked: Seq<bool>|
        marked.len() == count && #[trigger] more.contains(mask_value(marked) as u128) implies exists|
        j: int,
    | 0 <= j < longer.len() && marks((#[trigger] longer[j]).order, count) == marked by {
        lemma_mask_limit(marked);
        if mask_value(marked) as u128 == mask_value(here) as u128 {
            lemma_mask_injective(marked, here);
            assert(longer[log.len() as int] == visit);
        } else {
            assert(exhausted.contains(mask_value(marked) as u128));
            let j = choose|j: int|
                0 <= j < log.len() && marks((#[trigger] log[j]).order, count) == marked;
            assert(longer[j] == log[j]);
        }
    }
    let at = log.len() as int;
    if exhausted.contains(mask_value(here) as u128) {
        assert(here.len() == count);
        let j = choose|j: int|
            0 <= j < log.len() && marks((#[trigger] log[j]).order, count) == here;
        assert(marks(longer[j].order, count) == marks(longer[at].order, count));
    } else {
        assert forall|j: int| 0 <= j < at implies #[trigger] marks(longer[j].order, count) != marks(
            longer[at].order,
            count,
        ) by {
            assert(longer[j] == log[j]);
            assert(exhausted.contains(mask_value(marks(log[j].order, count)) as u128));
        }
    }
}

/// Whether each set of commands in `exhausted` leads to no workable order, or is
/// what one of the first commands of `order` left behind.
spec fn memory_holds<F: BatchStep>(
    step: F,
    initial: BatchView,
    prerequisites: Seq<Option<usize>>,
    order: Seq<usize>,
    limit: nat,
    exhausted: Set<u128>,
) -> bool {
    forall|marked: Seq<bool>|
        marked.len() == prerequisites.len() && #[trigger] exhausted.contains(
            mask_value(marked) as u128,
        ) ==> {
            ||| dead(step, initial, prerequisites, marked)
            ||| exists|k: int|
                0 <= k < limit && marked == #[trigger] marks(order.take(k), prerequisites.len())
        }
}

proof fn lemma_memory_insert<F: BatchStep>(
    step: F,
    initial: BatchView,
    prerequisites: Seq<Option<usize>>,
    order: Seq<usize>,
    exhausted: Set<u128>,
)
    requires
        prerequisites.len() <= MAX_ORDERED_COMMANDS,
        memory_holds(step, initial, prerequisites, order, order.len(), exhausted),
    ensures
        memory_holds(
            step,
            initial,
            prerequisites,
            order,
            order.len() + 1,
            exhausted.insert(mask_value(marks(order, prerequisites.len())) as u128),
        ),
{
    let here = marks(order, prerequisites.len());
    assert forall|marked: Seq<bool>|
        marked.len() == prerequisites.len() && #[trigger] exhausted.insert(
            mask_value(here) as u128,
        ).contains(mask_value(marked) as u128) implies {
        ||| dead(step, initial, prerequisites, marked)
        ||| exists|k: int|
            0 <= k < order.len() + 1 && marked == #[trigger] marks(
                order.take(k),
                prerequisites.len(),
            )
    } by {
        lemma_mask_limit(marked);
        lemma_mask_limit(here);
        if mask_value(marked) as u128 == mask_value(here) as u128 {
            lemma_mask_injective(marked, here);
            assert(order.take(order.len() as int) =~= order);
            assert(marked == marks(order.take(order.len() as int), prerequisites.len()));
        } else {
            assert(exhausted.contains(mask_value(marked) as u128));
            if !dead(step, initial, prerequisites, marked) {
                let k = choose|k: int|
                    0 <= k < order.len() && marked == #[trigger] marks(
                        order.take(k),
                        prerequisites.len(),
                    );
                assert(marked == marks(order.take(k), prerequisites.len()));
            }
        }
    }
}

proof fn lemma_memory_known<F: BatchStep>(
    step: F,
    initial: BatchView,
    prerequisites: Seq<Option<usize>>,
    order: Seq<usize>,
    exhausted: Set<u128>,
)
    requires
        prerequisites.len() <= MAX_ORDERED_COMMANDS,
        allowed_order(prerequisites, order),
        memory_holds(step, initial, prerequisites, order, order.len(), exhausted),
        exhausted.contains(mask_value(marks(order, prerequisites.len())) as u128),
    ensures
        dead(step, initial, prerequisites, marks(order, prerequisites.len())),
{
    let here = marks(order, prerequisites.len());
    if !dead(step, initial, prerequisites, here) {
        let k = choose|k: int|
            0 <= k < order.len() && here == #[trigger] marks(order.take(k), prerequisites.len());
        let index = order[k];
        assert(here[index as int]);
        assert(order.take(k).contains(index));
        let j = choose|j: int| 0 <= j < order.take(k).len() && order.take(k)[j] == index;
        assert(order[j] == order[k]);
        assert(false);
    }
}

proof fn lemma_memory_child<F: BatchStep>(
    step: F,
    initial: BatchView,
    prerequisites: Seq<Option<usize>>,
    order: Seq<usize>,
    index: usize,
    exhausted: Set<u128>,
)
    ensures
        memory_holds(step, initial, prerequisites, order, order.len() + 1, exhausted)
            == memory_holds(
            step,
            initial,
            prerequisites,
            order.push(index),
            order.push(index).len(),
            exhausted,
        ),
{
    assert forall|k: int| 0 <= k < order.len() + 1 implies order.take(k) == #[trigger] order.push(
        index,
    ).take(k) by {
        assert(order.take(k) =~= order.push(index).take(k));
    }
    let short = memory_holds(step, initial, prerequisites, order, order.len() + 1, exhausted);
    let long = memory_holds(
        step,
        initial,
        prerequisites,
        order.push(index),
        order.push(index).len(),
        exhausted,
    );
    if short {
        assert forall|marked: Seq<bool>|
            marked.len() == prerequisites.len() && #[trigger] exhausted.contains(
                mask_value(marked) as u128,
            ) implies {
            ||| dead(step, initial, prerequisites, marked)
            ||| exists|k: int|
                0 <= k < order.len() + 1 && marked == #[trigger] marks(
                    order.push(index).take(k),
                    prerequisites.len(),
                )
        } by {
            if !dead(step, initial, prerequisites, marked) {
                let k = choose|k: int|
                    0 <= k < order.len() + 1 && marked == #[trigger] marks(
                        order.take(k),
                        prerequisites.len(),
                    );
                assert(order.take(k) == order.push(index).take(k));
                assert(marked == marks(order.push(index).take(k), prerequisites.len()));
            }
        }
    }
    if long {
        assert forall|marked: Seq<bool>|
            marked.len() == prerequisites.len() && #[trigger] exhausted.contains(
                mask_value(marked) as u128,
            ) implies {
            ||| dead(step, initial, prerequisites, marked)
            ||| exists|k: int|
                0 <= k < order.len() + 1 && marked == #[trigger] marks(
                    order.take(k),
                    prerequisites.len(),
                )
        } by {
            if !dead(step, initial, prerequisites, marked) {
                let k = choose|k: int|
                    0 <= k < order.len() + 1 && marked == #[trigger] marks(
                        order.push(index).take(k),
                        prerequisites.len(),
                    );
                assert(order.take(k) == order.push(index).take(k));
                assert(marked == marks(order.take(k), prerequisites.len()));
            }
        }
    }
}

pub(crate) proof fn lemma_allowed_push(
    prerequisites: Seq<Option<usize>>,
    order: Seq<usize>,
    index: usize,
)
    requires
        allowed_order(prerequisites, order),
        index < prerequisites.len(),
        !order.contains(index),
        prerequisites[index as int] is Some ==> order.contains(prerequisites[index as int]->0),
    ensures
        allowed_order(prerequisites, order.push(index)),
{
    let longer = order.push(index);
    assert forall|i: int, j: int| 0 <= i < longer.len() && 0 <= j < longer.len() && i
        != j implies longer[i] != longer[j] by {
        if i == order.len() {
            assert(order.contains(longer[j]));
        } else if j == order.len() {
            assert(order.contains(longer[i]));
        }
    }
    assert forall|k: int|
        0 <= k < longer.len() && prerequisites[#[trigger] longer[k] as int] is Some implies
        longer.take(k).contains(prerequisites[longer[k] as int]->0) by {
        if k < order.len() {
            assert(longer[k] == order[k]);
            assert(longer.take(k) =~= order.take(k));
        } else {
            assert(longer.take(k) =~= order);
        }
    }
}

/// Whether a search fails with an error: it stops at a command, or it gives up.
pub open spec fn search_failed<F: BatchStep>(
    step: F,
    initial: BatchView,
    prerequisites: Seq<Option<usize>>,
    index: usize,
    error: ItemRepositoryError,
) -> bool {
    &&& index < prerequisites.len()
    &&& {
        ||| crate::items::visits::search_stops(step, initial, prerequisites, index, error)
        ||| error == ItemRepositoryError::Internal && crate::items::visits::search_gives_up(
            step,
            initial,
            prerequisites,
            index,
        )
    }
}

/// Looks for a workable order that begins with the commands of `order`, in the
/// state `projected` that they lead to. `executed` marks these commands. Sets of
/// commands that were looked at before stand in `exhausted`, and `remaining_states`
/// is what is left of the number of partial orders that may be looked at. `log` are the
/// visits so far.
#[verifier::loop_isolation(false)]
#[verifier::rlimit(60)]
fn search_command_execution_order<F: BatchStep>(
    step: &F,
    initial: &ProjectedBatchState,
    projected: &ProjectedBatchState,
    prerequisites: &Vec<Option<usize>>,
    executed: &mut Vec<bool>,
    order: &mut Vec<usize>,
    exhausted: &mut BTreeSet<u128>,
    remaining_states: &mut usize,
    Ghost(log): Ghost<Seq<Visit>>,
) -> (result: (Result<Option<Vec<usize>>, (usize, ItemRepositoryError)>, Ghost<Seq<Visit>>))
    requires
        prerequisites@.len() <= MAX_ORDERED_COMMANDS,
        prerequisites_fit(prerequisites@),
        allowed_order(prerequisites@, old(order)@),
        old(order)@.len() <= prerequisites@.len(),
        old(executed)@ == marks(old(order)@, prerequisites@.len()),
        reaches(*step, initial@, old(order)@, projected@),
        forall|index: usize| index < prerequisites@.len() ==> #[trigger] step.ready(index),
        settled(*step, initial@) ==> memory_holds(
            *step,
            initial@,
            prerequisites@,
            old(order)@,
            old(order)@.len(),
            old(exhausted)@,
        ),
        crate::items::visits::comes_to(
            *step,
            initial@,
            prerequisites@,
            log,
            old(order)@,
            projected@,
        ),
        remembers(old(exhausted)@, log, prerequisites@.len()),
        *old(remaining_states) + log.len() == MAX_COMMAND_ORDER_SEARCH_STATES,
    ensures
        final(order)@ == old(order)@,
        final(executed)@ == old(executed)@,
        result.0 is Ok ==> {
            &&& log.len() <= result.1@.len()
            &&& result.1@.take(log.len() as int) == log
            &&& remembers(final(exhausted)@, result.1@, prerequisites@.len())
            &&& *final(remaining_states) + result.1@.len() == MAX_COMMAND_ORDER_SEARCH_STATES
        },
        result.0 matches Ok(None) ==> {
            &&& log.len() < result.1@.len()
            &&& result.1@[log.len() as int] == (Visit { order: old(order)@, state: projected@ })
            &&& crate::items::visits::search_log(
                *step,
                initial@,
                prerequisites@,
                result.1@,
                old(order)@,
            )
            &&& forall|k: int|
                log.len() <= k < result.1@.len() ==> (#[trigger] result.1@[k]).order.len()
                    >= old(order)@.len() && result.1@[k].order.take(old(order)@.len() as int)
                    == old(order)@
        },
        match result.0 {
            Ok(Some(found)) => {
                &&& exists|last: BatchView|
                    crate::items::visits::comes_to(
                        *step,
                        initial@,
                        prerequisites@,
                        result.1@,
                        found@,
                        last,
                    )
                &&& workable_order(*step, initial@, prerequisites@, found@)
                &&& found@.take(old(order)@.len() as int) == old(order)@
                &&& settled(*step, initial@) ==> chosen_from(
                    *step,
                    initial@,
                    prerequisites@,
                    found@,
                    old(order)@.len() as int,
                )
            },
            Ok(None) => settled(*step, initial@) ==> {
                &&& dead(*step, initial@, prerequisites@, old(executed)@)
                &&& memory_holds(
                    *step,
                    initial@,
                    prerequisites@,
                    old(order)@,
                    old(order)@.len(),
                    final(exhausted)@,
                )
            },
            Err((index, error)) => search_failed(
                *step,
                initial@,
                prerequisites@,
                index,
                error,
            ),
        },
    decreases prerequisites@.len() - old(order)@.len(),
{
    let count: usize = prerequisites.len();
    let ghost before = order@;
    if order.len() == count {
        let found: Vec<usize> = order.clone();
        assert(found@ =~= order@);
        assert(found@.take(before.len() as int) =~= before);
        return (Ok(Some(found)), Ghost(log));
    }
    if *remaining_states == 0 {
        let mut first: usize = 0;
        while first < count && executed[first]
            invariant
                first <= count,
                executed@.len() == count,
                forall|i: int| 0 <= i < first ==> executed@[i],
            decreases count - first,
        {
            first = first + 1;
        }
        proof {
            lemma_missing_number(before, count as nat);
            let missing = choose|i: usize| i < count && !before.contains(i);
            assert(!executed@[missing as int]);
            assert(first < count);
            assert(executed@[first as int] == before.contains(first));
            assert forall|i: usize| i < first implies #[trigger] before.contains(i) by {
                assert(executed@[i as int]);
            }
            assert(crate::items::visits::first_left(before, first));
        }
        return (Err((first, ItemRepositoryError::Internal)), Ghost(log));
    }
    *remaining_states = *remaining_states - 1;
    let mask: u128 = mask_of(&*executed);
    let ghost at = log.len() as int;
    let ghost mut seen = log.push(Visit { order: before, state: projected@ });
    proof {
        lemma_mask_limit(executed@);
        lemma_remember(
            exhausted@,
            log,
            Visit { order: before, state: projected@ },
            count as nat,
        );
        crate::items::visits::lemma_visit(
            *step,
            initial@,
            prerequisites@,
            log,
            before,
            projected@,
        );
        assert(seen.take(at) =~= log);
    }
    if !exhausted.insert(mask) {
        proof {
            if settled(*step, initial@) {
                lemma_memory_known(*step, initial@, prerequisites@, before, old(exhausted)@);
                assert(exhausted@ =~= old(exhausted)@);
            }
            assert(before.take(before.len() as int) =~= before);
        }
        return (Ok(None), Ghost(seen));
    }
    proof {
        if settled(*step, initial@) {
            lemma_memory_insert(*step, initial@, prerequisites@, before, old(exhausted)@);
        }
    }
    let mut index: usize = 0;
    while index < count
        invariant
            index <= count,
            at < seen.len(),
            seen.take(at) == log,
            seen[at] == (Visit { order: before, state: projected@ }),
            crate::items::visits::opened(seen, at, count as nat),
            crate::items::visits::search_log(
                *step,
                initial@,
                prerequisites@,
                seen,
                before.push(index),
            ),
            forall|k: int|
                0 <= k < seen.len() ==> crate::items::visits::precedes(
                    (#[trigger] seen[k]).order,
                    before.push(index),
                ),
            forall|k: int|
                at <= k < seen.len() ==> (#[trigger] seen[k]).order.len() >= before.len()
                    && seen[k].order.take(before.len() as int) == before,
            remembers(exhausted@, seen, count as nat),
            *remaining_states + seen.len() == MAX_COMMAND_ORDER_SEARCH_STATES,
            order@ == before,
            executed@ == marks(before, count as nat),
            settled(*step, initial@) ==> memory_holds(
                *step,
                initial@,
                prerequisites@,
                before,
                before.len() + 1,
                exhausted@,
            ),
            settled(*step, initial@) ==> forall|i: usize|
                #![trigger prerequisites@[i as int]]
                i < index && !before.contains(i) && (prerequisites@[i as int] is Some
                    ==> before.contains(prerequisites@[i as int]->0)) ==> {
                    ||| exists|error: ItemRepositoryError|
                        step.gives(i, projected@, Err::<BatchView, ItemRepositoryError>(error))
                    ||| dead(
                        *step,
                        initial@,
                        prerequisites@,
                        marks(before, count as nat).update(i as int, true),
                    )
                },
        decreases count - index,
    {
        let waiting: bool = match prerequisites[index] {
            Some(wanted) => !executed[wanted],
            None => false,
        };
        assert(executed@[index as int] == before.contains(index));
        if executed[index] || waiting {
            proof {
                crate::items::visits::lemma_next_command(
                    *step,
                    initial@,
                    prerequisites@,
                    seen,
                    at,
                    index,
                    (index + 1) as usize,
                );
            }
            index = index + 1;
            continue;
        }
        assert(may_follow(prerequisites@, before, index));
        match step.take(index, projected) {
            Ok(candidate) => {
                proof {
                    crate::items::visits::lemma_enter(
                        *step,
                        initial@,
                        prerequisites@,
                        seen,
                        at,
                        index,
                        candidate@,
                    );
                    lemma_allowed_push(prerequisites@, before, index);
                    lemma_reaches_push(*step, initial@, before, projected@, index, candidate@);
                    lemma_marks_push(before, index, count as nat);
                    lemma_memory_child(
                        *step,
                        initial@,
                        prerequisites@,
                        before,
                        index,
                        exhausted@,
                    );
                }
                executed.set(index, true);
                order.push(index);
                let (result, Ghost(further)) = search_command_execution_order(
                    step,
                    initial,
                    &candidate,
                    prerequisites,
                    executed,
                    order,
                    exhausted,
                    remaining_states,
                    Ghost(seen),
                );
                order.pop();
                executed.set(index, false);
                proof {
                    assert(order@ =~= before);
                    assert(executed@ =~= marks(before, count as nat));
                    lemma_memory_child(
                        *step,
                        initial@,
                        prerequisites@,
                        before,
                        index,
                        exhausted@,
                    );
                }
                match result {
                    Ok(None) => {
                        proof {
                            lemma_searched_below(
                                *step,
                                initial@,
                                prerequisites@,
                                seen,
                                further,
                                at,
                                index,
                                candidate@,
                            );
                            assert(further.take(at) =~= further.take(seen.len() as int).take(at));
                            seen = further;
                        }
                    },
                    Ok(Some(found)) => {
                        proof {
                            let len = before.len() as int;
                            assert(found@.take(len) =~= found@.take(len + 1).take(len));
                            assert(found@.take(len) =~= before);
                            assert(found@[len] == found@.take(len + 1)[len]);
                            if settled(*step, initial@) {
                                assert forall|i: usize|
                                    i < found@[len] && #[trigger] may_follow(
                                        prerequisites@,
                                        found@.take(len),
                                        i,
                                    ) implies leads_nowhere(
                                    *step,
                                    initial@,
                                    prerequisites@,
                                    found@.take(len),
                                    i,
                                ) by {
                                    assert(prerequisites@[i as int] == prerequisites@[i as int]);
                                }
                                assert(chosen_at(
                                    *step,
                                    initial@,
                                    prerequisites@,
                                    found@,
                                    len,
                                ));
                            }
                        }
                        assert(further.take(at) =~= further.take(seen.len() as int).take(at));
                        return (Ok(Some(found)), Ghost(further));
                    },
                    Err(error) => {
                        return (Err(error), Ghost(further));
                    },
                }
            },
            Err(error) => {
                if !order_error_can_be_resolved(&error) {
                    assert(crate::items::visits::opened(seen, at, prerequisites@.len()));
                    return (Err((index, error)), Ghost(seen));
                }
                proof {
                    assert(step.gives(
                        index,
                        seen[at].state,
                        Err::<BatchView, ItemRepositoryError>(error),
                    ));
                    assert(crate::items::visits::tried_next(*step, seen, at, index));
                    crate::items::visits::lemma_next_command(
                        *step,
                        initial@,
                        prerequisites@,
                        seen,
                        at,
                        index,
                        (index + 1) as usize,
                    );
                }
            },
        }
        index = index + 1;
    }
    proof {
        crate::items::visits::lemma_all_tried(
            *step,
            initial@,
            prerequisites@,
            seen,
            before,
            count,
        );
        if settled(*step, initial@) {
            lemma_dead_end(*step, initial@, prerequisites@, before, projected@);
            assert forall|marked: Seq<bool>|
                marked.len() == prerequisites@.len() && #[trigger] exhausted@.contains(
                    mask_value(marked) as u128,
                ) implies {
                ||| dead(*step, initial@, prerequisites@, marked)
                ||| exists|k: int|
                    0 <= k < before.len() && marked == #[trigger] marks(
                        before.take(k),
                        prerequisites@.len(),
                    )
            } by {
                if !dead(*step, initial@, prerequisites@, marked) {
                    let k = choose|k: int|
                        0 <= k < before.len() + 1 && marked == #[trigger] marks(
                            before.take(k),
                            prerequisites@.len(),
                        );
                    if k == before.len() {
                        assert(before.take(k) =~= before);
                        assert(false);
                    }
                    assert(marked == marks(before.take(k), prerequisites@.len()));
                }
            }
        }
    }
    (Ok(None), Ghost(seen))
}

/// Once the search is done with what a command leads to, the command was tried.
proof fn lemma_searched_below<F: BatchStep>(
    step: F,
    initial: BatchView,
    prerequisites: Seq<Option<usize>>,
    seen: Seq<Visit>,
    further: Seq<Visit>,
    at: int,
    index: usize,
    state: BatchView,
)
    requires
        0 <= at < seen.len() < further.len(),
        index < usize::MAX,
        further.take(seen.len() as int) == seen,
        crate::items::visits::opened(seen, at, prerequisites.len()),
        step.gives(index, seen[at].state, Ok::<BatchView, ItemRepositoryError>(state)),
        forall|k: int|
            0 <= k < seen.len() ==> crate::items::visits::precedes(
                (#[trigger] seen[k]).order,
                seen[at].order.push(index),
            ),
        forall|k: int|
            at <= k < seen.len() ==> (#[trigger] seen[k]).order.len() >= seen[at].order.len()
                && seen[k].order.take(seen[at].order.len() as int) == seen[at].order,
        further[seen.len() as int] == (Visit { order: seen[at].order.push(index), state }),
        crate::items::visits::search_log(
            step,
            initial,
            prerequisites,
            further,
            seen[at].order.push(index),
        ),
        forall|k: int|
            seen.len() <= k < further.len() ==> (#[trigger] further[k]).order.len()
                >= seen[at].order.len() + 1 && further[k].order.take(seen[at].order.len() as int + 1)
                == seen[at].order.push(index),
    ensures
        further[at] == seen[at],
        crate::items::visits::opened(further, at, prerequisites.len()),
        crate::items::visits::search_log(
            step,
            initial,
            prerequisites,
            further,
            seen[at].order.push((index + 1) as usize),
        ),
        forall|k: int|
            0 <= k < further.len() ==> crate::items::visits::precedes(
                (#[trigger] further[k]).order,
                seen[at].order.push((index + 1) as usize),
            ),
        forall|k: int|
            at <= k < further.len() ==> (#[trigger] further[k]).order.len() >= seen[at].order.len()
                && further[k].order.take(seen[at].order.len() as int) == seen[at].order,
{
    reveal(crate::items::visits::opened);
    let order = seen[at].order;
    let len = order.len() as int;
    let count = prerequisites.len();
    assert forall|k: int| 0 <= k < seen.len() implies further[k] == seen[k] by {
        assert(further.take(seen.len() as int)[k] == further[k]);
    }
    assert forall|j: int| 0 <= j < at implies #[trigger] marks(further[j].order, count) != marks(
        further[at].order,
        count,
    ) by {
        assert(marks(seen[j].order, count) != marks(seen[at].order, count));
    }
    let child = seen.len() as int;
    assert(further[child].order == further[at].order.push(index));
    assert(crate::items::visits::tried_next(step, further, at, index));
    assert forall|k: int| 0 <= k < further.len() implies crate::items::visits::precedes(
        (#[trigger] further[k]).order,
        order.push(index),
    ) || (further[k].order.len() > len && further[k].order.take(len + 1) == order.push(index)) by {
        if k < seen.len() {
            assert(further[k] == seen[k]);
        }
    }
    crate::items::visits::lemma_next_command(
        step,
        initial,
        prerequisites,
        further,
        at,
        index,
        (index + 1) as usize,
    );
    assert forall|k: int| at <= k < further.len() implies (#[trigger] further[k]).order.len() >= len
        && further[k].order.take(len) == order by {
        if k < seen.len() {
            assert(further[k] == seen[k]);
        } else {
            assert(further[k].order.take(len) =~= further[k].order.take(len + 1).take(len));
            assert(order.push(index).take(len) =~= order);
        }
    }
}

/// Looks for a workable order, from the state `initial` on, by trying the commands
/// in the order of their positions and taking back what leads to a dead end.
pub fn fallback_command_execution_order<F: BatchStep>(
    step: &F,
    initial: &ProjectedBatchState,
    prerequisites: &Vec<Option<usize>>,
) -> (result: Result<Option<Vec<usize>>, (usize, ItemRepositoryError)>)
    requires
        prerequisites@.len() <= MAX_ORDERED_COMMANDS,
        prerequisites_fit(prerequisites@),
        forall|index: usize| index < prerequisites@.len() ==> #[trigger] step.ready(index),
    ensures
        match result {
            Ok(Some(found)) => {
                &&& workable_order(*step, initial@, prerequisites@, found@)
                &&& crate::items::visits::search_finds(*step, initial@, prerequisites@, found@)
                &&& settled(*step, initial@) ==> first_workable(
                    *step,
                    initial@,
                    prerequisites@,
                    found@,
                )
            },
            Ok(None) => {
                &&& crate::items::visits::search_ends(*step, initial@, prerequisites@)
                &&& settled(*step, initial@) ==> forall|order: Seq<usize>|
                    !workable_order(*step, initial@, prerequisites@, order)
            },
            Err((index, error)) => search_failed(
                *step,
                initial@,
                prerequisites@,
                index,
                error,
            ),
        },
{
    let mut remaining_states: usize = MAX_COMMAND_ORDER_SEARCH_STATES;
    let mut executed: Vec<bool> = Vec::new();
    while executed.len() < prerequisites.len()
        invariant
            executed@.len() <= prerequisites@.len(),
            forall|i: int| 0 <= i < executed@.len() ==> !executed@[i],
        decreases prerequisites@.len() - executed@.len(),
    {
        executed.push(false);
    }
    let mut order: Vec<usize> = Vec::new();
    let mut exhausted: BTreeSet<u128> = BTreeSet::new();
    proof {
        assert(executed@ =~= marks(order@, prerequisites@.len()));
        lemma_reaches_start(*step, initial@);
        assert(order@ =~= Seq::<usize>::empty());
    }
    proof {
        crate::items::visits::lemma_search_begins(*step, initial@, prerequisites@);
    }
    let (result, Ghost(log)) = search_command_execution_order(
        step,
        initial,
        initial,
        prerequisites,
        &mut executed,
        &mut order,
        &mut exhausted,
        &mut remaining_states,
        Ghost(Seq::<Visit>::empty()),
    );
    proof {
        if result matches Ok(None) {
            assert(crate::items::visits::search_ends(*step, initial@, prerequisites@));
        }
        if result is Ok && result->Ok_0 is Some && settled(*step, initial@) {
            lemma_chosen_first(*step, initial@, prerequisites@, result->Ok_0->0@);
        }
        if result matches Ok(None) && settled(*step, initial@) {
            let none = marks(Seq::<usize>::empty(), prerequisites@.len());
            assert forall|full: Seq<usize>| !workable_order(
                *step,
                initial@,
                prerequisites@,
                full,
            ) by {
                if workable_order(*step, initial@, prerequisites@, full) {
                    assert(full.take(0) =~= Seq::<usize>::empty());
                    assert(marks(full.take(0), prerequisites@.len()) == none);
                    assert(false);
                }
            }
        }
    }
    result
}

/// The state after the last step, which is the initial one before the first step.
spec fn state_now(current: Option<ProjectedBatchState>, initial: BatchView) -> BatchView {
    match current {
        Some(state) => state@,
        None => initial,
    }
}

/// The order in which a batch is carried out. In each round the first command that
/// waits for none, and that `step` does not refuse, goes next. Where every one of
/// them is refused, all orders are tried, as far as the limit on the search goes. Either
/// way it is the first workable order, by the positions of its commands.
///
/// `prerequisites` gives for each command the command that it waits for, if any,
/// and `step` takes a command: to the next state, or to why it is refused.
///
/// What is found, or why nothing is, follows from how the commands are tried: see the
/// visits of a search. An error names the command that it concerns.
#[verifier::loop_isolation(false)]
#[verifier::rlimit(60)]
pub fn first_execution_order<F: BatchStep>(
    step: &F,
    initial: &ProjectedBatchState,
    prerequisites: &Vec<Option<usize>>,
) -> (result: Result<Vec<usize>, (usize, ItemRepositoryError)>)
    requires
        prerequisites@.len() <= MAX_ORDERED_COMMANDS,
        prerequisites_fit(prerequisites@),
        forall|index: usize| index < prerequisites@.len() ==> #[trigger] step.ready(index),
    ensures
        match result {
            Ok(found) => {
                &&& workable_order(*step, initial@, prerequisites@, found@)
                &&& crate::items::visits::search_finds(*step, initial@, prerequisites@, found@)
                &&& settled(*step, initial@) ==> first_workable(
                    *step,
                    initial@,
                    prerequisites@,
                    found@,
                )
            },
            Err((index, error)) => order_refused(
                *step,
                initial@,
                prerequisites@,
                index,
                error,
            ),
        },
{
    let count: usize = prerequisites.len();
    let mut executed: Vec<bool> = Vec::new();
    while executed.len() < count
        invariant
            executed@.len() <= count,
            forall|i: int| 0 <= i < executed@.len() ==> !executed@[i],
        decreases count - executed@.len(),
    {
        executed.push(false);
    }
    let mut order: Vec<usize> = Vec::new();
    let mut current: Option<ProjectedBatchState> = None;
    proof {
        assert(executed@ =~= marks(order@, count as nat));
        lemma_reaches_start(*step, initial@);
        assert(order@ =~= Seq::<usize>::empty());
        crate::items::visits::lemma_search_begins(*step, initial@, prerequisites@);
    }
    let ghost mut log = Seq::<Visit>::empty();
    while order.len() < count
        invariant
            log.len() == order@.len(),
            forall|k: int| 0 <= k < log.len() ==> (#[trigger] log[k]).order == order@.take(k),
            crate::items::visits::comes_to(
                *step,
                initial@,
                prerequisites@,
                log,
                order@,
                state_now(current, initial@),
            ),
            count == prerequisites@.len(),
            order@.len() <= count,
            allowed_order(prerequisites@, order@),
            executed@ == marks(order@, count as nat),
            reaches(*step, initial@, order@, state_now(current, initial@)),
            chosen_from(*step, initial@, prerequisites@, order@, 0),
        decreases count - order@.len(),
    {
        let ghost here = state_now(current, initial@);
        let ghost at = log.len() as int;
        let ghost seen = log.push(Visit { order: order@, state: here });
        proof {
            crate::items::visits::lemma_visit(
                *step,
                initial@,
                prerequisites@,
                log,
                order@,
                here,
            );
            lemma_straight(prerequisites@, order@, log, here);
        }
        let mut selected: Option<(usize, ProjectedBatchState)> = None;
        let mut refused: Option<(usize, ItemRepositoryError)> = None;
        let mut index: usize = 0;
        while index < count && selected.is_none()
            invariant
                index <= count,
                crate::items::visits::search_log(
                    *step,
                    initial@,
                    prerequisites@,
                    seen,
                    order@.push(index),
                ),
                forall|k: int|
                    0 <= k < seen.len() ==> crate::items::visits::precedes(
                        (#[trigger] seen[k]).order,
                        order@.push(index),
                    ),
                forall|i: usize|
                    i < index && #[trigger] may_follow(prerequisites@, order@, i)
                        ==> leads_nowhere(*step, initial@, prerequisites@, order@, i),
                match selected {
                    Some((chosen, next)) => {
                        &&& chosen == index
                        &&& chosen < count
                        &&& !order@.contains(chosen)
                        &&& prerequisites@[chosen as int] is Some ==> order@.contains(
                            prerequisites@[chosen as int]->0,
                        )
                        &&& step.gives(chosen, here, Ok::<BatchView, ItemRepositoryError>(next@))
                    },
                    None => true,
                },
                match refused {
                    Some((first, error)) => {
                        &&& resolvable(error)
                        &&& may_follow(prerequisites@, order@, first)
                        &&& forall|i: usize| i < first ==> !#[trigger] may_follow(
                            prerequisites@,
                            order@,
                            i,
                        )
                        &&& step.gives(first, here, Err::<BatchView, ItemRepositoryError>(error))
                    },
                    None => forall|i: usize|
                        i < index ==> !#[trigger] may_follow(prerequisites@, order@, i),
                },
            decreases count - index + if selected is None { 1int } else { 0int },
        {
            let waiting: bool = match prerequisites[index] {
                Some(wanted) => !executed[wanted],
                None => false,
            };
            assert(executed@[index as int] == order@.contains(index));
            if executed[index] || waiting {
                assert(!may_follow(prerequisites@, order@, index));
                proof {
                    crate::items::visits::lemma_next_command(
                        *step,
                        initial@,
                        prerequisites@,
                        seen,
                        at,
                        index,
                        (index + 1) as usize,
                    );
                }
                index = index + 1;
            } else {
                assert(may_follow(prerequisites@, order@, index));
                let state: &ProjectedBatchState = match &current {
                    Some(state) => state,
                    None => initial,
                };
                match step.take(index, state) {
                    Ok(next) => {
                        selected = Some((index, next));
                    },
                    Err(error) => {
                        assert(reaches(*step, initial@, order@, here));
                        if !order_error_can_be_resolved(&error) {
                            assert(seen.last() == (Visit { order: order@, state: here }));
                            assert(crate::items::visits::opened(
                                seen,
                                seen.len() - 1,
                                prerequisites@.len(),
                            ));
                            assert(crate::items::visits::stops_straight(
                                *step,
                                initial@,
                                prerequisites@,
                                index,
                                error,
                            ));
                            return Err((index, error));
                        }
                        let ghost refusal = error;
                        if refused.is_none() {
                            refused = Some((index, error));
                        }
                        proof {
                            assert(step.gives(
                                index,
                                seen[at].state,
                                Err::<BatchView, ItemRepositoryError>(refusal),
                            ));
                            assert(crate::items::visits::tried_next(*step, seen, at, index));
                            crate::items::visits::lemma_next_command(
                                *step,
                                initial@,
                                prerequisites@,
                                seen,
                                at,
                                index,
                                (index + 1) as usize,
                            );
                        }
                        index = index + 1;
                    },
                }
            }
        }
        match selected {
            Some((chosen, next)) => {
                proof {
                    crate::items::visits::lemma_enter(
                        *step,
                        initial@,
                        prerequisites@,
                        seen,
                        at,
                        chosen,
                        next@,
                    );
                    assert forall|k: int| 0 <= k < seen.len() implies (#[trigger] seen[k]).order
                        == order@.push(chosen).take(k) by {
                        assert(order@.push(chosen).take(k) =~= order@.take(k));
                    }
                    log = seen;
                    lemma_allowed_push(prerequisites@, order@, chosen);
                    lemma_reaches_push(*step, initial@, order@, here, chosen, next@);
                    lemma_marks_push(order@, chosen, count as nat);
                    lemma_chosen_push(*step, initial@, prerequisites@, order@, chosen);
                }
                executed.set(chosen, true);
                order.push(chosen);
                current = Some(next);
            },
            None => match refused {
                Some(greedy_error) => {
                    proof {
                        crate::items::visits::lemma_all_tried(
                            *step,
                            initial@,
                            prerequisites@,
                            seen,
                            order@,
                            count,
                        );
                        assert(seen.last() == (Visit { order: order@, state: here }));
                        assert(crate::items::visits::first_dead_end(
                            *step,
                            initial@,
                            prerequisites@,
                            greedy_error.0,
                            greedy_error.1,
                        ));
                    }
                    return match fallback_command_execution_order(step, initial, prerequisites) {
                        Ok(Some(found)) => Ok(found),
                        Ok(None) => Err(greedy_error),
                        Err(error) => Err(error),
                    };
                },
                None => {
                    let mut first: usize = 0;
                    while first < count && executed[first]
                        invariant
                            first <= count,
                            executed@.len() == count,
                            forall|i: int| 0 <= i < first ==> executed@[i],
                        decreases count - first,
                    {
                        first = first + 1;
                    }
                    proof {
                        lemma_missing_number(order@, count as nat);
                        let missing = choose|i: usize| i < count && !order@.contains(i);
                        assert(!executed@[missing as int]);
                        assert(executed@[first as int] == order@.contains(first));
                        assert forall|i: usize| i < first implies #[trigger] order@.contains(i) by {
                            assert(executed@[i as int]);
                        }
                        crate::items::visits::lemma_all_tried(
                            *step,
                            initial@,
                            prerequisites@,
                            seen,
                            order@,
                            count,
                        );
                        assert(seen.last() == (Visit { order: order@, state: here }));
                        assert(crate::items::visits::comes_to_circle(
                            *step,
                            initial@,
                            prerequisites@,
                            first,
                        ));
                        assert forall|i: usize|
                            #![trigger prerequisites@[i as int]]
                            i < prerequisites@.len() && !order@.contains(i) implies
                            prerequisites@[i as int] is Some && !order@.contains(
                            prerequisites@[i as int]->0,
                        ) by {
                            assert(!may_follow(prerequisites@, order@, i));
                        }
                        assert forall|full: Seq<usize>| full.len()
                            == prerequisites@.len() implies !allowed_order(
                            prerequisites@,
                            full,
                        ) by {
                            lemma_stuck(prerequisites@, order@, full);
                        }
                    }
                    return Err((first, ItemRepositoryError::HierarchyCycle));
                },
            },
        }
    }
    proof {
        if settled(*step, initial@) {
            lemma_chosen_first(*step, initial@, prerequisites@, order@);
        }
    }
    Ok(order)
}

proof fn lemma_chosen_push<F: BatchStep>(
    step: F,
    initial: BatchView,
    prerequisites: Seq<Option<usize>>,
    order: Seq<usize>,
    chosen: usize,
)
    requires
        chosen_from(step, initial, prerequisites, order, 0),
        forall|i: usize|
            i < chosen && #[trigger] may_follow(prerequisites, order, i) ==> leads_nowhere(
                step,
                initial,
                prerequisites,
                order,
                i,
            ),
    ensures
        chosen_from(step, initial, prerequisites, order.push(chosen), 0),
{
    let longer = order.push(chosen);
    assert forall|k: int| 0 <= k < longer.len() implies #[trigger] chosen_at(
        step,
        initial,
        prerequisites,
        longer,
        k,
    ) by {
        if k < order.len() {
            assert(chosen_at(step, initial, prerequisites, order, k));
            assert(longer.take(k) =~= order.take(k));
        } else {
            assert(longer.take(k) =~= order);
        }
    }
}

/// The beginnings of an order carry out different sets of commands.
pub(crate) proof fn lemma_straight(
    prerequisites: Seq<Option<usize>>,
    order: Seq<usize>,
    log: Seq<Visit>,
    state: BatchView,
)
    requires
        allowed_order(prerequisites, order),
        log.len() == order.len(),
        prerequisites.len() <= usize::MAX,
        forall|k: int| 0 <= k < log.len() ==> (#[trigger] log[k]).order == order.take(k),
    ensures
        ({
            let seen = log.push(Visit { order, state });
            &&& crate::items::visits::opened(seen, log.len() as int, prerequisites.len())
            &&& crate::items::visits::straight(seen)
            &&& forall|k: int| 0 <= k < seen.len() ==> (#[trigger] seen[k]).order == order.take(k)
        }),
{
    reveal(crate::items::visits::opened);
    let seen = log.push(Visit { order, state });
    let count = prerequisites.len();
    assert(order.take(order.len() as int) =~= order);
    assert forall|k: int| 0 <= k < seen.len() implies (#[trigger] seen[k]).order == order.take(
        k,
    ) by {
        if k < log.len() {
            assert(seen[k] == log[k]);
        }
    }
    assert forall|j: int| 0 <= j < log.len() implies #[trigger] marks(seen[j].order, count)
        != marks(seen[log.len() as int].order, count) by {
        let next = order[j];
        let prefix = order.take(j);
        assert(seen[j].order == prefix);
        assert(marks(order, count)[next as int] == order.contains(next));
        assert(marks(prefix, count)[next as int] == prefix.contains(next));
        if prefix.contains(next) {
            let i = choose|i: int| 0 <= i < prefix.len() && prefix[i] == next;
            assert(order[i] == order[j]);
        }
    }
}

} // verus!
