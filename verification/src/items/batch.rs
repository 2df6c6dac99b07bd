//! A batch of commands as it is carried out: in which order, and what it leaves behind.
use std::collections::BTreeMap;

use vstd::prelude::*;

use crate::items::model::{Item, ItemPolicy, ItemRepositoryError};
use crate::items::ordering::{first_execution_order, BatchStep};
use crate::items::projection::{
    command_prerequisites, project_command_for_ordering, projected_batch_state, BatchView,
    ProjectedBatchState,
};
use crate::proposals::application::ProposalCommand;
use crate::time::Uuid;

verus! {

/// The commands of a batch with the rules that they are tried by.
///
/// `content` is what the rules for item content make of the item of a command, `refresh`
/// the rule by which the execution state of a parent is derived from whether it has live
/// children, and `graph` the rule for the dependencies between all items.
pub struct CommandBatch<'a, C, R, G> {
    pub policy: &'a ItemPolicy,
    pub content: &'a C,
    pub refresh: &'a R,
    pub graph: &'a G,
    pub commands: &'a Vec<ProposalCommand>,
}

impl<
    'a,
    C: Fn(&ProposalCommand, Option<&Item>) -> Result<Item, ItemRepositoryError>,
    R: Fn(&Item, bool) -> Result<Item, ItemRepositoryError>,
    G: Fn(&BTreeMap<Uuid, Item>) -> Result<(), ItemRepositoryError>,
> CommandBatch<'a, C, R, G> {
    /// Whether the rules can be asked about everything.
    pub open spec fn rules_answer(self) -> bool {
        &&& forall|c: &ProposalCommand, current: Option<&Item>|
            call_requires(*self.content, (c, current))
        &&& forall|item: &Item, has_children: bool|
            call_requires(*self.refresh, (item, has_children))
        &&& forall|items: &BTreeMap<Uuid, Item>| call_requires(*self.graph, (items,))
    }

    /// Whether the rules are functions: asked twice about the same, they answer alike.
    pub open spec fn rules_are_functions(self) -> bool {
        &&& forall|
            c: &ProposalCommand,
            current: Option<&Item>,
            a: Result<Item, ItemRepositoryError>,
            b: Result<Item, ItemRepositoryError>,
        |
            call_ensures(*self.content, (c, current), a) && call_ensures(
                *self.content,
                (c, current),
                b,
            ) ==> a == b
        &&& forall|
            item: &Item,
            has_children: bool,
            a: Result<Item, ItemRepositoryError>,
            b: Result<Item, ItemRepositoryError>,
        |
            call_ensures(*self.refresh, (item, has_children), a) && call_ensures(
                *self.refresh,
                (item, has_children),
                b,
            ) ==> a == b
        &&& forall|
            x: &BTreeMap<Uuid, Item>,
            y: &BTreeMap<Uuid, Item>,
            a: Result<(), ItemRepositoryError>,
            b: Result<(), ItemRepositoryError>,
        |
            x@ == y@ && #[trigger] call_ensures(*self.graph, (x,), a) && #[trigger] call_ensures(
                *self.graph,
                (y,),
                b,
            ) ==> a == b
    }
}

impl<
    'a,
    C: Fn(&ProposalCommand, Option<&Item>) -> Result<Item, ItemRepositoryError>,
    R: Fn(&Item, bool) -> Result<Item, ItemRepositoryError>,
    G: Fn(&BTreeMap<Uuid, Item>) -> Result<(), ItemRepositoryError>,
> BatchStep for CommandBatch<'a, C, R, G> {
    open spec fn ready(&self, index: usize) -> bool {
        index < self.commands@.len() && self.rules_answer()
    }

    open spec fn gives(
        &self,
        index: usize,
        state: BatchView,
        outcome: Result<BatchView, ItemRepositoryError>,
    ) -> bool {
        match outcome {
            Ok(next) => crate::items::projection::projects(
                *self.policy,
                *self.content,
                *self.refresh,
                *self.graph,
                self.commands@[index as int],
                state,
                next,
            ),
            Err(error) => crate::items::projection::projection_refused(
                *self.policy,
                *self.content,
                *self.refresh,
                *self.graph,
                self.commands@[index as int],
                state,
                error,
            ),
        }
    }

    fn take(&self, index: usize, state: &ProjectedBatchState) -> (outcome: Result<
        ProjectedBatchState,
        ItemRepositoryError,
    >) {
        project_command_for_ordering(
            self.policy,
            self.content,
            self.refresh,
            self.graph,
            &self.commands[index],
            state,
        )
    }
}

/// Whether `waits` gives for each command the command that creates its parent, where one
/// does.
pub open spec fn waits_known(commands: Seq<ProposalCommand>, waits: Seq<Option<usize>>) -> bool {
    &&& waits.len() == commands.len()
    &&& forall|k: int|
        0 <= k < commands.len() ==> crate::items::projection::waits_for(
            commands,
            k,
            #[trigger] waits[k],
        )
}

/// Whether a batch can begin in the state `start`, and `waits` gives the commands that its
/// commands wait for.
pub open spec fn batch_opens<
    C: Fn(&ProposalCommand, Option<&Item>) -> Result<Item, ItemRepositoryError>,
    R: Fn(&Item, bool) -> Result<Item, ItemRepositoryError>,
    G: Fn(&BTreeMap<Uuid, Item>) -> Result<(), ItemRepositoryError>,
>(
    batch: CommandBatch<C, R, G>,
    initial: Map<Uuid, Item>,
    start: BatchView,
    waits: Seq<Option<usize>>,
) -> bool {
    &&& crate::items::projection::batch_begins(
        *batch.policy,
        *batch.content,
        batch.commands@,
        initial,
        start,
    )
    &&& waits_known(batch.commands@, waits)
}

/// The order in which the commands of a batch are carried out on the items `initial_by_id`:
/// the first in which each of them is accepted when its turn comes, with every new parent
/// created before its children. An error names the command that it concerns.
///
/// The order is the one that the search of `crate::items::visits` finds. Where the rules are
/// functions it is the only one that a search can find. It comes before every other workable
/// order where the state depends on nothing but which commands were carried out; the search
/// does not look into the same set of commands twice, so that otherwise it may pass over an
/// order that leads to another state.
pub fn command_execution_order<
    C: Fn(&ProposalCommand, Option<&Item>) -> Result<Item, ItemRepositoryError>,
    R: Fn(&Item, bool) -> Result<Item, ItemRepositoryError>,
    G: Fn(&BTreeMap<Uuid, Item>) -> Result<(), ItemRepositoryError>,
>(batch: &CommandBatch<C, R, G>, initial_by_id: &BTreeMap<Uuid, Item>) -> (result: Result<
    Vec<usize>,
    (usize, ItemRepositoryError),
>)
    requires
        batch.commands@.len() <= crate::items::ordering::MAX_ORDERED_COMMANDS,
        batch.rules_answer(),
        forall|command: &ProposalCommand, current: Option<&Item>, created: Item|
            call_ensures(*batch.content, (command, current), Ok::<Item, ItemRepositoryError>(created))
                ==> created.id == command.spec_target(),
    ensures
        match result {
            Ok(order) => exists|start: BatchView, waits: Seq<Option<usize>>|
                {
                    &&& #[trigger] batch_opens(*batch, initial_by_id@, start, waits)
                    &&& crate::items::ordering::workable_order(*batch, start, waits, order@)
                    &&& crate::items::visits::search_finds(*batch, start, waits, order@)
                    &&& crate::items::ordering::settled(*batch, start)
                        ==> crate::items::ordering::first_workable(*batch, start, waits, order@)
                },
            Err((index, error)) => {
                ||| crate::items::projection::start_refused(
                    *batch.content,
                    batch.commands@,
                    initial_by_id@,
                    index,
                    error,
                )
                ||| exists|start: BatchView, waits: Seq<Option<usize>>|
                    {
                        &&& #[trigger] batch_opens(*batch, initial_by_id@, start, waits)
                        &&& crate::items::ordering::order_refused(
                            *batch,
                            start,
                            waits,
                            index,
                            error,
                        )
                    }
            },
        },
{
    let start: ProjectedBatchState = projected_batch_state(
        batch.policy,
        batch.content,
        batch.commands,
        initial_by_id,
    )?;
    let prerequisites: Vec<Option<usize>> = command_prerequisites(batch.commands);
    assert(batch_opens(*batch, initial_by_id@, start@, prerequisites@));
    first_execution_order(batch, &start, &prerequisites)
}

proof fn lemma_pending_shrinks<
    C: Fn(&ProposalCommand, Option<&Item>) -> Result<Item, ItemRepositoryError>,
    R: Fn(&Item, bool) -> Result<Item, ItemRepositoryError>,
    G: Fn(&BTreeMap<Uuid, Item>) -> Result<(), ItemRepositoryError>,
>(
    batch: CommandBatch<C, R, G>,
    order: Seq<usize>,
    states: Seq<BatchView>,
    k: int,
    id: Uuid,
)
    requires
        crate::items::ordering::passes(batch, order, states),
        0 <= k <= order.len(),
        states[k].pending.contains(id),
    ensures
        states[0].pending.contains(id),
        forall|j: int|
            0 <= j < k ==> !crate::items::projection::creates(
                batch.commands@[#[trigger] order[j] as int],
                id,
            ),
    decreases k,
{
    if k > 0 {
        let command = batch.commands@[order[k - 1] as int];
        assert(batch.gives(
            order[k - 1],
            states[k - 1],
            Ok::<BatchView, ItemRepositoryError>(states[k]),
        ));
        lemma_pending_shrinks(batch, order, states, k - 1, id);
    }
}

/// A batch that was carried out leaves nothing to be created: where all of its commands
/// were accepted, every new item is there as its command makes it, and none as the shell
/// that it began with.
pub proof fn carried_out_batch_leaves_nothing_to_create<
    C: Fn(&ProposalCommand, Option<&Item>) -> Result<Item, ItemRepositoryError>,
    R: Fn(&Item, bool) -> Result<Item, ItemRepositoryError>,
    G: Fn(&BTreeMap<Uuid, Item>) -> Result<(), ItemRepositoryError>,
>(
    batch: CommandBatch<C, R, G>,
    initial: Map<Uuid, Item>,
    start: BatchView,
    waits: Seq<Option<usize>>,
    order: Seq<usize>,
    last: BatchView,
)
    requires
        batch_opens(batch, initial, start, waits),
        crate::items::ordering::workable_order(batch, start, waits, order),
        crate::items::ordering::reaches(batch, start, order, last),
    ensures
        forall|id: Uuid| !last.pending.contains(id),
{
    let states = choose|states: Seq<BatchView>| #[trigger]
        crate::items::ordering::passes(batch, order, states) && states[0] == start
            && states[order.len() as int] == last;
    let commands = batch.commands@;
    assert(commands.len() == batch.commands.len());
    crate::items::ordering::lemma_full_order(order, commands.len());
    assert forall|id: Uuid| !last.pending.contains(id) by {
        if last.pending.contains(id) {
            lemma_pending_shrinks(batch, order, states, order.len() as int, id);
            assert(crate::items::projection::created_before(commands, commands.len() as int, id));
            let k = choose|k: int|
                0 <= k < commands.len() && crate::items::projection::creates(
                    #[trigger] commands[k],
                    id,
                );
            assert(order.contains(k as usize));
            let p = choose|p: int| 0 <= p < order.len() && order[p] == k as usize;
            assert(!crate::items::projection::creates(commands[order[p] as int], id));
        }
    }
}

/// Whether two sets of items agree on an item.
pub open spec fn agree_on(a: Map<Uuid, Item>, b: Map<Uuid, Item>, id: Uuid) -> bool {
    a.contains_key(id) == b.contains_key(id) && a[id] == b[id]
}

proof fn lemma_refresh_keeps_others<R: Fn(&Item, bool) -> Result<Item, ItemRepositoryError>>(
    refresh: R,
    parents: Seq<Uuid>,
    states: Seq<Map<Uuid, Item>>,
    k: int,
    id: Uuid,
)
    requires
        crate::items::projection::refresh_passes(refresh, parents, states),
        0 <= k <= parents.len(),
        !parents.contains(id),
    ensures
        agree_on(states[0], states[k], id),
    decreases k,
{
    if k > 0 {
        lemma_refresh_keeps_others(refresh, parents, states, k - 1, id);
        assert(parents.contains(parents[k - 1]));
        assert(crate::items::projection::parent_refreshed(
            refresh,
            states[k - 1],
            parents[k - 1],
            states[k],
        ));
    }
}

/// A command that is carried out changes its own item, and the parents whose execution
/// state has to be derived anew; every other item stays as it is.
pub proof fn command_leaves_other_items_alone<
    C: Fn(&ProposalCommand, Option<&Item>) -> Result<Item, ItemRepositoryError>,
    R: Fn(&Item, bool) -> Result<Item, ItemRepositoryError>,
>(
    policy: ItemPolicy,
    content: C,
    refresh: R,
    command: ProposalCommand,
    state: BatchView,
    items: Map<Uuid, Item>,
)
    requires
        crate::items::projection::leads_to(policy, content, refresh, command, state, items),
    ensures
        exists|made: Item|
            {
                &&& #[trigger] crate::items::projection::accepted(
                    policy,
                    content,
                    command,
                    state,
                    made,
                )
                &&& forall|id: Uuid|
                    id != made.id && !crate::items::projection::parent_to_refresh(
                        command,
                        state.items,
                        made,
                        id,
                    ) ==> #[trigger] agree_on(state.items, items, id)
            },
{
    let (made, parents) = choose|made: Item, parents: Seq<Uuid>|
        {
            &&& crate::items::projection::accepted(policy, content, command, state, made)
            &&& #[trigger] crate::items::projection::parents_fit(
                command,
                state.items,
                made,
                parents,
            )
            &&& crate::items::projection::refreshes(
                refresh,
                crate::items::projection::placed(policy, state.items, made),
                parents,
                items,
            )
        };
    let from = crate::items::projection::placed(policy, state.items, made);
    let states = choose|states: Seq<Map<Uuid, Item>>| #[trigger]
        crate::items::projection::refresh_passes(refresh, parents, states) && states[0] == from
            && states[parents.len() as int] == items;
    assert forall|id: Uuid|
        id != made.id && !crate::items::projection::parent_to_refresh(
            command,
            state.items,
            made,
            id,
        ) implies #[trigger] agree_on(state.items, items, id) by {
        lemma_refresh_keeps_others(refresh, parents, states, parents.len() as int, id);
        assert(agree_on(state.items, from, id));
    }
}

proof fn lemma_same_parents(a: Seq<Uuid>, b: Seq<Uuid>)
    requires
        crate::ids::increasing(a),
        crate::ids::increasing(b),
        forall|id: Uuid| a.contains(id) <==> b.contains(id),
    ensures
        a == b,
    decreases a.len(),
{
    if a.len() > 0 && b.len() > 0 {
        let x = a.last();
        let y = b.last();
        assert(a.contains(x) && b.contains(y));
        let i = choose|i: int| 0 <= i < b.len() && b[i] == x;
        let j = choose|j: int| 0 <= j < a.len() && a[j] == y;
        assert(x <= y && y <= x);
        let shorter = a.drop_last();
        let other = b.drop_last();
        assert forall|id: Uuid| shorter.contains(id) <==> other.contains(id) by {
            if shorter.contains(id) {
                let k = choose|k: int| 0 <= k < shorter.len() && shorter[k] == id;
                assert(a[k] == id);
                assert(b.contains(id));
                let l = choose|l: int| 0 <= l < b.len() && b[l] == id;
                assert(other[l] == id);
            }
            if other.contains(id) {
                let k = choose|k: int| 0 <= k < other.len() && other[k] == id;
                assert(b[k] == id);
                assert(a.contains(id));
                let l = choose|l: int| 0 <= l < a.len() && a[l] == id;
                assert(shorter[l] == id);
            }
        }
        lemma_same_parents(shorter, other);
        assert(a =~= shorter.push(x));
        assert(b =~= other.push(y));
    } else if a.len() > 0 {
        assert(a.contains(a[0]));
    } else if b.len() > 0 {
        assert(b.contains(b[0]));
    } else {
        assert(a =~= b);
    }
}

proof fn lemma_same_refresh<
    'a,
    C: Fn(&ProposalCommand, Option<&Item>) -> Result<Item, ItemRepositoryError>,
    R: Fn(&Item, bool) -> Result<Item, ItemRepositoryError>,
    G: Fn(&BTreeMap<Uuid, Item>) -> Result<(), ItemRepositoryError>,
>(
    batch: CommandBatch<'a, C, R, G>,
    parents: Seq<Uuid>,
    a: Seq<Map<Uuid, Item>>,
    more: Seq<Uuid>,
    b: Seq<Map<Uuid, Item>>,
    k: int,
)
    requires
        batch.rules_are_functions(),
        crate::items::projection::refresh_passes(*batch.refresh, parents, a),
        crate::items::projection::refresh_passes(*batch.refresh, more, b),
        a[0] == b[0],
        0 <= k <= parents.len(),
        k <= more.len(),
        forall|j: int| 0 <= j < k ==> parents[j] == more[j],
    ensures
        a[k] == b[k],
    decreases k,
{
    if k > 0 {
        lemma_same_refresh(batch, parents, a, more, b, k - 1);
        let id = parents[k - 1];
        assert(parents[k - 1] == more[k - 1]);
        assert(crate::items::projection::parent_refreshed(*batch.refresh, a[k - 1], id, a[k]));
        assert(crate::items::projection::parent_refreshed(*batch.refresh, b[k - 1], id, b[k]));
    }
}

/// What a command leads to before the rule for the dependencies is asked is fixed.
proof fn lemma_leads_to_one<
    'a,
    C: Fn(&ProposalCommand, Option<&Item>) -> Result<Item, ItemRepositoryError>,
    R: Fn(&Item, bool) -> Result<Item, ItemRepositoryError>,
    G: Fn(&BTreeMap<Uuid, Item>) -> Result<(), ItemRepositoryError>,
>(
    batch: CommandBatch<'a, C, R, G>,
    from: Map<Uuid, Item>,
    parents: Seq<Uuid>,
    a: Map<Uuid, Item>,
    b: Map<Uuid, Item>,
)
    requires
        batch.rules_are_functions(),
        crate::items::projection::refreshes(*batch.refresh, from, parents, a),
        crate::items::projection::refreshes(*batch.refresh, from, parents, b),
    ensures
        a == b,
{
    let x = choose|states: Seq<Map<Uuid, Item>>| #[trigger]
        crate::items::projection::refresh_passes(*batch.refresh, parents, states) && states[0]
            == from && states[parents.len() as int] == a;
    let y = choose|states: Seq<Map<Uuid, Item>>| #[trigger]
        crate::items::projection::refresh_passes(*batch.refresh, parents, states) && states[0]
            == from && states[parents.len() as int] == b;
    lemma_same_refresh(batch, parents, x, parents, y, parents.len() as int);
}

/// Parents that can be refreshed do not fail, and fail in one way.
proof fn lemma_fails_one_way<
    'a,
    C: Fn(&ProposalCommand, Option<&Item>) -> Result<Item, ItemRepositoryError>,
    R: Fn(&Item, bool) -> Result<Item, ItemRepositoryError>,
    G: Fn(&BTreeMap<Uuid, Item>) -> Result<(), ItemRepositoryError>,
>(
    batch: CommandBatch<'a, C, R, G>,
    from: Map<Uuid, Item>,
    parents: Seq<Uuid>,
    error: ItemRepositoryError,
)
    requires
        batch.rules_are_functions(),
        crate::items::projection::refresh_fails(*batch.refresh, from, parents, error),
    ensures
        forall|to: Map<Uuid, Item>|
            !#[trigger] crate::items::projection::refreshes(*batch.refresh, from, parents, to),
        forall|other: ItemRepositoryError| #[trigger]
            crate::items::projection::refresh_fails(*batch.refresh, from, parents, other)
                ==> other == error,
{
    let refresh = *batch.refresh;
    let (k, mid) = lemma_failure(refresh, from, parents, error);
    let states = choose|states: Seq<Map<Uuid, Item>>| #[trigger]
        crate::items::projection::refresh_passes(refresh, parents.take(k), states) && states[0]
            == from && states[k] == mid;
    assert forall|to: Map<Uuid, Item>| !#[trigger] crate::items::projection::refreshes(
        refresh,
        from,
        parents,
        to,
    ) by {
        if crate::items::projection::refreshes(refresh, from, parents, to) {
            let others = choose|states: Seq<Map<Uuid, Item>>| #[trigger]
                crate::items::projection::refresh_passes(refresh, parents, states) && states[0]
                    == from && states[parents.len() as int] == to;
            lemma_same_refresh(batch, parents.take(k), states, parents, others, k);
            assert(crate::items::projection::parent_refreshed(
                refresh,
                others[k],
                parents[k],
                others[k + 1],
            ));
        }
    }
    assert forall|other: ItemRepositoryError| #[trigger]
        crate::items::projection::refresh_fails(refresh, from, parents, other) implies other
        == error by {
        let (j, there) = lemma_failure(refresh, from, parents, other);
        let others = choose|states: Seq<Map<Uuid, Item>>| #[trigger]
            crate::items::projection::refresh_passes(refresh, parents.take(j), states) && states[0]
                == from && states[j] == there;
        if j < k {
            lemma_same_refresh(batch, parents.take(k), states, parents.take(j), others, j);
            assert(parents.take(k)[j] == parents[j]);
            assert(crate::items::projection::parent_refreshed(
                refresh,
                states[j],
                parents[j],
                states[j + 1],
            ));
        } else if k < j {
            lemma_same_refresh(batch, parents.take(k), states, parents.take(j), others, k);
            assert(parents.take(j)[k] == parents[k]);
            assert(crate::items::projection::parent_refreshed(
                refresh,
                others[k],
                parents[k],
                others[k + 1],
            ));
        } else {
            lemma_same_refresh(batch, parents.take(k), states, parents.take(j), others, k);
        }
    }
}

/// Where refreshing parents fails.
proof fn lemma_failure<R: Fn(&Item, bool) -> Result<Item, ItemRepositoryError>>(
    refresh: R,
    from: Map<Uuid, Item>,
    parents: Seq<Uuid>,
    error: ItemRepositoryError,
) -> (found: (int, Map<Uuid, Item>))
    requires
        crate::items::projection::refresh_fails(refresh, from, parents, error),
    ensures
        0 <= found.0 < parents.len(),
        crate::items::projection::refreshes(refresh, from, parents.take(found.0), found.1),
        ({
            let id = parents[found.0];
            if crate::items::hierarchy::live(found.1, id) {
                call_ensures(
                    refresh,
                    (&found.1[id], crate::items::hierarchy::has_live_child(found.1, id)),
                    Err::<Item, ItemRepositoryError>(error),
                )
            } else {
                error == ItemRepositoryError::ParentNotFound(id)
            }
        }),
{
    choose|k: int, mid: Map<Uuid, Item>|
        0 <= k < parents.len() && #[trigger] crate::items::projection::refreshes(
            refresh,
            from,
            parents.take(k),
            mid,
        ) && {
            ||| {
                &&& !crate::items::hierarchy::live(mid, parents[k])
                &&& error == ItemRepositoryError::ParentNotFound(parents[k])
            }
            ||| {
                &&& crate::items::hierarchy::live(mid, parents[k])
                &&& call_ensures(
                    refresh,
                    (&mid[parents[k]], crate::items::hierarchy::has_live_child(mid, parents[k])),
                    Err::<Item, ItemRepositoryError>(error),
                )
            }
        }
}

/// How far a command comes: whether it is accepted, with which item, and what becomes of the
/// items.
ghost enum CommandFate {
    Refused(ItemRepositoryError),
    Unrefreshed(ItemRepositoryError),
    Unconnected(ItemRepositoryError),
    Done(BatchView),
}

spec fn fate_holds<
    'a,
    C: Fn(&ProposalCommand, Option<&Item>) -> Result<Item, ItemRepositoryError>,
    R: Fn(&Item, bool) -> Result<Item, ItemRepositoryError>,
    G: Fn(&BTreeMap<Uuid, Item>) -> Result<(), ItemRepositoryError>,
>(
    batch: CommandBatch<'a, C, R, G>,
    command: ProposalCommand,
    state: BatchView,
    made: Item,
    parents: Seq<Uuid>,
    items: Map<Uuid, Item>,
    fate: CommandFate,
) -> bool {
    let accepted = crate::items::projection::accepted(
        *batch.policy,
        *batch.content,
        command,
        state,
        made,
    ) && crate::items::projection::parents_fit(command, state.items, made, parents);
    let from = crate::items::projection::placed(*batch.policy, state.items, made);
    let refreshed = crate::items::projection::refreshes(*batch.refresh, from, parents, items);
    match fate {
        CommandFate::Refused(error) => crate::items::projection::acceptance_refused(
            *batch.policy,
            *batch.content,
            command,
            state,
            error,
        ),
        CommandFate::Unrefreshed(error) => accepted && crate::items::projection::refresh_fails(
            *batch.refresh,
            from,
            parents,
            error,
        ),
        CommandFate::Unconnected(error) => accepted && refreshed
            && crate::items::projection::graph_gives(
            *batch.graph,
            items,
            Err::<(), ItemRepositoryError>(error),
        ),
        CommandFate::Done(next) => accepted && refreshed && items == next.items
            && crate::items::projection::graph_gives(
            *batch.graph,
            items,
            Ok::<(), ItemRepositoryError>(()),
        ) && next.pending == (match command {
            ProposalCommand::CreateItem { .. } => state.pending.remove(command.spec_target()),
            _ => state.pending,
        }),
    }
}

spec fn fate_outcome(fate: CommandFate) -> Result<BatchView, ItemRepositoryError> {
    match fate {
        CommandFate::Refused(error) => Err(error),
        CommandFate::Unrefreshed(error) => Err(error),
        CommandFate::Unconnected(error) => Err(error),
        CommandFate::Done(next) => Ok(next),
    }
}

/// Every outcome of a command is one of its fates.
proof fn lemma_fate<
    'a,
    C: Fn(&ProposalCommand, Option<&Item>) -> Result<Item, ItemRepositoryError>,
    R: Fn(&Item, bool) -> Result<Item, ItemRepositoryError>,
    G: Fn(&BTreeMap<Uuid, Item>) -> Result<(), ItemRepositoryError>,
>(
    batch: CommandBatch<'a, C, R, G>,
    index: usize,
    state: BatchView,
    outcome: Result<BatchView, ItemRepositoryError>,
) -> (found: (Item, Seq<Uuid>, Map<Uuid, Item>, CommandFate))
    requires
        batch.gives(index, state, outcome),
    ensures
        fate_holds(
            batch,
            batch.commands@[index as int],
            state,
            found.0,
            found.1,
            found.2,
            found.3,
        ),
        fate_outcome(found.3) == outcome,
{
    let command = batch.commands@[index as int];
    let policy = *batch.policy;
    let content = *batch.content;
    let refresh = *batch.refresh;
    match outcome {
        Ok(next) => {
            let (made, parents) = lemma_led(policy, content, refresh, command, state, next.items);
            (made, parents, next.items, CommandFate::Done(next))
        },
        Err(error) => {
            if crate::items::projection::acceptance_refused(policy, content, command, state, error) {
                (arbitrary(), Seq::empty(), state.items, CommandFate::Refused(error))
            } else if exists|made: Item, parents: Seq<Uuid>|
                {
                    &&& crate::items::projection::accepted(policy, content, command, state, made)
                    &&& #[trigger] crate::items::projection::parents_fit(
                        command,
                        state.items,
                        made,
                        parents,
                    )
                    &&& crate::items::projection::refresh_fails(
                        refresh,
                        crate::items::projection::placed(policy, state.items, made),
                        parents,
                        error,
                    )
                } {
                let (made, parents) = choose|made: Item, parents: Seq<Uuid>|
                    {
                        &&& crate::items::projection::accepted(
                            policy,
                            content,
                            command,
                            state,
                            made,
                        )
                        &&& #[trigger] crate::items::projection::parents_fit(
                            command,
                            state.items,
                            made,
                            parents,
                        )
                        &&& crate::items::projection::refresh_fails(
                            refresh,
                            crate::items::projection::placed(policy, state.items, made),
                            parents,
                            error,
                        )
                    };
                (made, parents, state.items, CommandFate::Unrefreshed(error))
            } else {
                let items = choose|items: Map<Uuid, Item>|
                    {
                        &&& #[trigger] crate::items::projection::leads_to(
                            policy,
                            content,
                            refresh,
                            command,
                            state,
                            items,
                        )
                        &&& crate::items::projection::graph_gives(
                            *batch.graph,
                            items,
                            Err::<(), ItemRepositoryError>(error),
                        )
                    };
                let (made, parents) = lemma_led(policy, content, refresh, command, state, items);
                (made, parents, items, CommandFate::Unconnected(error))
            }
        },
    }
}

pub(crate) proof fn lemma_led<
    C: Fn(&ProposalCommand, Option<&Item>) -> Result<Item, ItemRepositoryError>,
    R: Fn(&Item, bool) -> Result<Item, ItemRepositoryError>,
>(
    policy: ItemPolicy,
    content: C,
    refresh: R,
    command: ProposalCommand,
    state: BatchView,
    items: Map<Uuid, Item>,
) -> (found: (Item, Seq<Uuid>))
    requires
        crate::items::projection::leads_to(policy, content, refresh, command, state, items),
    ensures
        crate::items::projection::accepted(policy, content, command, state, found.0),
        crate::items::projection::parents_fit(command, state.items, found.0, found.1),
        crate::items::projection::refreshes(
            refresh,
            crate::items::projection::placed(policy, state.items, found.0),
            found.1,
            items,
        ),
{
    choose|made: Item, parents: Seq<Uuid>|
        {
            &&& crate::items::projection::accepted(policy, content, command, state, made)
            &&& #[trigger] crate::items::projection::parents_fit(
                command,
                state.items,
                made,
                parents,
            )
            &&& crate::items::projection::refreshes(
                refresh,
                crate::items::projection::placed(policy, state.items, made),
                parents,
                items,
            )
        }
}

/// Where the rules are functions, what a command leads to, or why it is refused, is fixed by
/// the state in which it is tried.
pub proof fn functional_rules_determine_commands<
    'a,
    C: Fn(&ProposalCommand, Option<&Item>) -> Result<Item, ItemRepositoryError>,
    R: Fn(&Item, bool) -> Result<Item, ItemRepositoryError>,
    G: Fn(&BTreeMap<Uuid, Item>) -> Result<(), ItemRepositoryError>,
>(batch: CommandBatch<'a, C, R, G>)
    requires
        batch.rules_are_functions(),
    ensures
        crate::items::ordering::determined(batch),
{
    assert forall|
        index: usize,
        state: BatchView,
        a: Result<BatchView, ItemRepositoryError>,
        b: Result<BatchView, ItemRepositoryError>,
    |
        batch.gives(index, state, a) && batch.gives(index, state, b) implies a == b by {
        let command = batch.commands@[index as int];
        let (made, parents, items, fate) = lemma_fate(batch, index, state, a);
        let (other, more, others, end) = lemma_fate(batch, index, state, b);
        if !(fate is Refused) && !(end is Refused) {
            assert(made == other);
            lemma_same_parents(parents, more);
            let from = crate::items::projection::placed(*batch.policy, state.items, made);
            if fate is Unrefreshed {
                lemma_fails_one_way(batch, from, parents, fate->Unrefreshed_0);
            } else if end is Unrefreshed {
                lemma_fails_one_way(batch, from, parents, end->Unrefreshed_0);
            } else {
                lemma_leads_to_one(batch, from, parents, items, others);
            }
        }
    }
}

} // verus!
