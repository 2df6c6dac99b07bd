//! What can be relied on of routines and their occurrences.
use vstd::prelude::*;

use crate::items::completion::ItemCompletionState;
use crate::items::model::{Item, ItemKind, ItemStatus};
use crate::json::Json;
use crate::routines::admission::{
    admits_member, can_admit, publication_outcome, revisions_match, same_occurrence,
    PublishedOccurrence,
};
use crate::routines::cursors::Cursor;
use crate::routines::evidence::{
    asks_for_order, children_of, defines_member, definition_may_lack, eligible, grows_from,
    is_routine, place_of, source_of, subtree_of, walk, MemberDefinition,
    RoutineOccurrenceEvidence, RoutineOccurrenceSourceEvidence, RoutineOccurrenceWorkUnit,
};
use crate::routines::model::{
    OccurrenceLimits, RoutineOccurrenceAggregate, RoutineOccurrenceError,
    RoutineOccurrenceManifest, RoutineOccurrenceMemberDefinition,
};
use crate::routines::pages::{
    can_begin, next_place, page_head, PageRequest, RoutineOccurrenceChange,
};
use crate::routines::planning::{planning_refusal, revision_of, PlanningBudget};
use crate::time::Uuid;

verus! {

/// The children of an item are the items that have it as their parent.
pub proof fn children_have_their_parent(items: Seq<Item>, id: Uuid, child: Uuid)
    ensures
        children_of(items, id).contains(child) <==> exists|k: int|
            0 <= k < items.len() && (#[trigger] items[k]).id == child && items[k].parent_id == Some(
                id,
            ),
    decreases items.len(),
{
    if items.len() > 0 {
        let first = items.drop_last();
        let last = items.last();
        children_have_their_parent(first, id, child);
        let before = children_of(first, id);
        let after = children_of(items, id);
        if before.contains(child) {
            let k = choose|k: int|
                0 <= k < first.len() && (#[trigger] first[k]).id == child && first[k].parent_id
                    == Some(id);
            assert(items[k] == first[k]);
            let i = choose|i: int| 0 <= i < before.len() && before[i] == child;
            assert(after[i] == child);
        } else if last.parent_id == Some(id) && last.id == child {
            assert(after[before.len() as int] == child);
            assert(items[items.len() - 1] == last);
        } else {
            assert forall|k: int| 0 <= k < items.len() implies !((#[trigger] items[k]).id == child
                && items[k].parent_id == Some(id)) by {
                if k < first.len() {
                    assert(first[k] == items[k]);
                }
            }
            if after.contains(child) {
                let i = choose|i: int| 0 <= i < after.len() && after[i] == child;
                assert(i < before.len());
                assert(before[i] == child);
            }
        }
    }
}

/// An item is found by its identifier wherever it stands, and no other is.
pub proof fn items_are_found_where_they_stand(items: Seq<Item>, id: Uuid, k: int)
    requires
        0 <= k < items.len(),
        items[k].id == id,
        forall|j: int| 0 <= j < items.len() && j != k ==> (#[trigger] items[j]).id != id,
    ensures
        place_of(items, id) == Some(k),
{
    crate::routines::evidence::lemma_place(items, id);
    match place_of(items, id) {
        Some(j) => {
            assert(items[j].id == id);
        },
        None => {},
    }
}

/// Whether what is pending is the root or a child of an item of the walk.
spec fn pending_from(
    items: Seq<Item>,
    root_id: Uuid,
    pending: Seq<Uuid>,
    visited: Seq<Uuid>,
) -> bool {
    forall|i: int|
        0 <= i < pending.len() ==> (#[trigger] pending[i]) == root_id || exists|j: int|
            0 <= j < visited.len() && children_of(items, #[trigger] visited[j]).contains(pending[i])
}

proof fn lemma_walk_fails(
    items: Seq<Item>,
    root_id: Uuid,
    pending: Seq<Uuid>,
    visited: Seq<Uuid>,
    limit: nat,
)
    requires
        visited.len() <= limit,
        visited.no_duplicates(),
        grows_from(items, root_id, visited),
        pending_from(items, root_id, pending, visited),
    ensures
        walk(items, pending, visited, limit) == Err::<Seq<Uuid>, RoutineOccurrenceError>(
            RoutineOccurrenceError::TooLarge,
        ) ==> exists|found: Seq<Uuid>| #[trigger]
            grows_from(items, root_id, found) && found.no_duplicates() && found.len() == limit + 1,
        match walk(items, pending, visited, limit) {
            Ok(_) => true,
            Err(error) => error == RoutineOccurrenceError::TooLarge || error
                == RoutineOccurrenceError::Invalid,
        },
    decreases limit - visited.len(),
{
    if pending.len() > 0 && !visited.contains(pending.last()) {
        let next = pending.last();
        let more = visited.push(next);
        assert(grows_from(items, root_id, more)) by {
            assert forall|i: int| 0 <= i < more.len() implies (#[trigger] more[i]) == root_id
                || exists|j: int|
                0 <= j < i && children_of(items, #[trigger] more[j]).contains(more[i]) by {
                if i < visited.len() {
                    assert(more[i] == visited[i]);
                    if visited[i] != root_id {
                        let j = choose|j: int|
                            0 <= j < i && children_of(items, #[trigger] visited[j]).contains(
                                visited[i],
                            );
                        assert(more[j] == visited[j]);
                    }
                } else {
                    assert(next == pending[pending.len() - 1]);
                    if next != root_id {
                        let j = choose|j: int|
                            0 <= j < visited.len() && children_of(
                                items,
                                #[trigger] visited[j],
                            ).contains(next);
                        assert(more[j] == visited[j]);
                    }
                }
            }
        }
        assert(more.no_duplicates());
        if visited.len() < limit {
            let rest = pending.drop_last() + children_of(items, next);
            assert(pending_from(items, root_id, rest, more)) by {
                assert forall|i: int| 0 <= i < rest.len() implies (#[trigger] rest[i]) == root_id
                    || exists|j: int|
                    0 <= j < more.len() && children_of(items, #[trigger] more[j]).contains(
                        rest[i],
                    ) by {
                    if i < pending.len() - 1 {
                        assert(rest[i] == pending[i]);
                        if rest[i] != root_id {
                            let j = choose|j: int|
                                0 <= j < visited.len() && children_of(
                                    items,
                                    #[trigger] visited[j],
                                ).contains(pending[i]);
                            assert(more[j] == visited[j]);
                        }
                    } else {
                        assert(children_of(items, more[visited.len() as int]).contains(rest[i]));
                    }
                }
            }
            lemma_walk_fails(items, root_id, rest, more, limit);
        }
    }
}

/// A routine is told to be too large only if more items descend from its root than are
/// allowed, and to be missing exactly if its root is.
pub proof fn routines_are_too_large_only_if_they_are(
    items: Seq<Item>,
    root_id: Uuid,
    limit: nat,
)
    ensures
        subtree_of(items, root_id, limit) == Err::<Seq<Uuid>, RoutineOccurrenceError>(
            RoutineOccurrenceError::TooLarge,
        ) ==> exists|found: Seq<Uuid>| #[trigger]
            grows_from(items, root_id, found) && found.no_duplicates() && found.len() == limit + 1,
        subtree_of(items, root_id, limit) == Err::<Seq<Uuid>, RoutineOccurrenceError>(
            RoutineOccurrenceError::OccurrenceMissing,
        ) <==> forall|k: int| 0 <= k < items.len() ==> (#[trigger] items[k]).id != root_id,
{
    crate::routines::evidence::lemma_place(items, root_id);
    let pending = seq![root_id];
    assert(pending_from(items, root_id, pending, Seq::empty()));
    lemma_walk_fails(items, root_id, pending, Seq::empty(), limit);
    match place_of(items, root_id) {
        Some(k) => {
            assert(items[k].id == root_id);
        },
        None => {},
    }
}

/// An occurrence is taken up with items that are open: those in the inbox, planned or blocked,
/// and no others. A task or a routine that recurs can be the root of one.
pub proof fn open_items_are_eligible(item: Item)
    ensures
        eligible(item.status) <==> item.status == ItemStatus::Inbox || item.status
            == ItemStatus::Planned || item.status == ItemStatus::Blocked,
        is_routine(item) <==> item.recurrence is Some && (item.kind == ItemKind::Task || item.kind
            == ItemKind::Routine),
        asks_for_order(item) <==> item.constraints.member("routine_ordered"@) == Some(
            Json::Bool(true),
        ),
{
}

/// What is known of an item that an occurrence was admitted with is its present revision and
/// whether it is open; nothing is known of one that is gone, which is not open.
pub proof fn sources_tell_the_present(items: Seq<Item>, id: Uuid, k: int)
    ensures
        source_of(items, id).item_id == id,
        0 <= k < items.len() && items[k].id == id && (forall|j: int|
            0 <= j < items.len() && j != k ==> (#[trigger] items[j]).id != id) ==> {
            &&& source_of(items, id).current_revision == Some(items[k].revision)
            &&& source_of(items, id).eligible <==> items[k].status == ItemStatus::Inbox
                || items[k].status == ItemStatus::Planned || items[k].status == ItemStatus::Blocked
        },
        (forall|j: int| 0 <= j < items.len() ==> (#[trigger] items[j]).id != id) ==> source_of(
            items,
            id,
        ).current_revision is None && !source_of(items, id).eligible,
{
    crate::routines::evidence::lemma_place(items, id);
    if 0 <= k < items.len() && items[k].id == id && (forall|j: int|
        0 <= j < items.len() && j != k ==> (#[trigger] items[j]).id != id) {
        items_are_found_where_they_stand(items, id, k);
    }
    match place_of(items, id) {
        Some(j) => {
            assert(items[j].id == id);
        },
        None => {},
    }
}

/// Two items that contribute the same to the definition of a routine agree in what makes a
/// routine the one that it is, and only in the root does the parent not count.
pub proof fn definitions_tell_members_apart(
    a: Item,
    b: Item,
    root_id: Uuid,
    member: MemberDefinition,
)
    requires
        defines_member(a, root_id, member),
        defines_member(b, root_id, member),
    ensures
        a.id == b.id,
        a.id != root_id ==> a.parent_id == b.parent_id,
        a.id == root_id ==> member.parent_id is None,
        a.kind == b.kind,
        a.recurrence is Some == b.recurrence is Some,
        crate::json::optional_json_same(a.recurrence, b.recurrence),
        a.timezone_name@ == b.timezone_name@,
        asks_for_order(a) == asks_for_order(b),
        a.sibling_order == b.sibling_order,
{
    if a.recurrence is Some {
        crate::json::json_same_symmetric(b.recurrence->0, member.recurrence->0);
        crate::json::json_same_transitive(
            a.recurrence->0,
            member.recurrence->0,
            b.recurrence->0,
        );
    }
}

/// An occurrence stays readable exactly if its routine is gone, has changed, has grown too
/// large or can no longer be taken up; any other failure is one.
pub proof fn occurrences_stay_readable(error: RoutineOccurrenceError)
    ensures
        definition_may_lack(error) <==> error == RoutineOccurrenceError::OccurrenceMissing || error
            == RoutineOccurrenceError::DefinitionChanged || error
            == RoutineOccurrenceError::TooLarge || error
            == RoutineOccurrenceError::SourceIneligible,
{
}

/// An occurrence is taken up exactly if nothing was decided about it, each of its items is
/// open, and nobody works on one of them for it.
pub proof fn fresh_occurrences_are_taken_up(
    members: Seq<&Item>,
    occurrence: PublishedOccurrence,
    units: Seq<RoutineOccurrenceWorkUnit>,
)
    ensures
        can_admit(members, occurrence, units) <==> {
            &&& occurrence.generated
            &&& forall|k: int|
                0 <= k < members.len() ==> (#[trigger] members[k]).status == ItemStatus::Inbox
                    || members[k].status == ItemStatus::Planned || members[k].status
                    == ItemStatus::Blocked
            &&& forall|u: int, k: int|
                0 <= u < units.len() && 0 <= k < members.len() && (#[trigger] units[u]).occurrence_id
                    == occurrence.occurrence_id ==> units[u].item_id != (#[trigger] members[k]).id
        },
{
    if can_admit(members, occurrence, units) {
        assert forall|k: int| 0 <= k < members.len() implies (#[trigger] members[k]).status
            == ItemStatus::Inbox || members[k].status == ItemStatus::Planned || members[k].status
            == ItemStatus::Blocked by {
            assert(eligible(members[k].status));
        }
    }
}

/// An occurrence that was taken up before is the same one exactly if it is the same occurrence
/// of its recurrence, and its routine has the same definition.
pub proof fn occurrences_are_known_again(
    manifest: RoutineOccurrenceManifest,
    definition_hash: Seq<char>,
    identity: Json,
)
    ensures
        same_occurrence(manifest, definition_hash, identity) <==> manifest.definition_hash@
            == definition_hash && crate::json::json_same(manifest.identity, identity),
{
}

/// An item is kept as a member of an occurrence as it is, without its parent if it is the
/// root, and as required unless its completion says otherwise.
pub proof fn members_are_kept_as_they_are(
    item: Item,
    root_id: Uuid,
    policies: Map<Uuid, ItemCompletionState>,
    member: RoutineOccurrenceMemberDefinition,
)
    requires
        admits_member(item, root_id, policies, member),
    ensures
        member.item_id == item.id,
        item.id == root_id ==> member.parent_id is None,
        item.id != root_id ==> member.parent_id == item.parent_id,
        member.source_revision == item.revision,
        member.title@ == item.title@,
        member.kind == item.kind,
        member.recurs == (item.recurrence is Some),
        member.sibling_order == item.sibling_order,
        !policies.contains_key(item.id) ==> member.required_for_parent,
        policies.contains_key(item.id) ==> member.required_for_parent
            == policies[item.id].required_for_parent,
        member.initial_open.status == item.status,
        member.initial_open.blocked_reason_kind == item.blocked_reason_kind,
        member.initial_open.blocked_by_item_id == item.blocked_by_item_id,
        member.initial_open.blocked_reason is Some == item.blocked_reason is Some,
        item.blocked_reason is Some ==> member.initial_open.blocked_reason->0@
            == item.blocked_reason->0@,
{
}

/// A schedule was made with the items as they are exactly if it knows the present revision of
/// each of them.
pub proof fn schedules_know_the_present_revisions(
    items: Seq<Item>,
    revisions: Map<Uuid, u64>,
    ids: Seq<Uuid>,
    id: Uuid,
    k: int,
)
    requires
        revisions_match(items, revisions, ids),
        ids.contains(id),
        0 <= k < items.len(),
        items[k].id == id,
        forall|j: int| 0 <= j < items.len() && j != k ==> (#[trigger] items[j]).id != id,
    ensures
        revisions.contains_key(id),
        revisions[id] == items[k].revision,
{
    items_are_found_where_they_stand(items, id, k);
}

/// The publication of an occurrence is recorded once, and another one for it is stale unless
/// it is the same.
pub proof fn publications_are_recorded_once(existing: Option<Json>, revisions: Json)
    ensures
        publication_outcome(existing, revisions) == Ok::<bool, RoutineOccurrenceError>(true)
            <==> existing is None,
        publication_outcome(existing, revisions) == Ok::<bool, RoutineOccurrenceError>(false)
            <==> existing is Some && crate::json::json_same(existing->0, revisions),
        publication_outcome(existing, revisions) is Err ==> publication_outcome(existing, revisions)
            == Err::<bool, RoutineOccurrenceError>(RoutineOccurrenceError::EvidenceStale),
{
}

/// Planning relies on an occurrence exactly if its routine has not changed, every item of it is
/// there and open, the occurrence can be changed as it is shown, and there is room for it. The
/// refusal is true.
pub proof fn planning_relies_on_what_still_holds(
    aggregate: RoutineOccurrenceAggregate,
    evidence: RoutineOccurrenceEvidence,
    editable: Result<bool, RoutineOccurrenceError>,
    size: Option<usize>,
    budget: PlanningBudget,
    limits: OccurrenceLimits,
)
    ensures
        (planning_refusal(aggregate, evidence, editable, size, budget, limits) is None) <==> {
            &&& evidence.current_definition_hash@ == aggregate.manifest.definition_hash@
            &&& forall|k: int|
                0 <= k < evidence.sources@.len() ==> (#[trigger] evidence.sources@[k]).eligible
                    && evidence.sources@[k].current_revision is Some
            &&& editable == Ok::<bool, RoutineOccurrenceError>(true)
            &&& size is Some
            &&& budget.bytes + size->0 <= limits.bytes
            &&& budget.members + aggregate.members@.len() <= limits.members
        },
        match planning_refusal(aggregate, evidence, editable, size, budget, limits) {
            Some(RoutineOccurrenceError::DefinitionChanged) => evidence.current_definition_hash@
                != aggregate.manifest.definition_hash@ || editable is Err,
            Some(RoutineOccurrenceError::TooLarge) => editable is Err || (size is Some && (
            budget.bytes + size->0 > limits.bytes || budget.members + aggregate.members@.len()
                > limits.members)),
            Some(RoutineOccurrenceError::Unavailable) => editable is Err || size is None,
            Some(RoutineOccurrenceError::SourceIneligible) => editable is Err || !editable->Ok_0
                || exists|k: int|
                0 <= k < evidence.sources@.len() && !((#[trigger] evidence.sources@[k]).eligible
                    && evidence.sources@[k].current_revision is Some),
            Some(error) => editable == Err::<bool, RoutineOccurrenceError>(error),
            None => true,
        },
{
    let sources = evidence.sources@;
    if crate::routines::planning::all_eligible(sources)
        && crate::routines::planning::all_current(sources) {
        assert forall|k: int| 0 <= k < sources.len() implies (#[trigger] sources[k]).eligible
            && sources[k].current_revision is Some by {}
    } else if !crate::routines::planning::all_eligible(sources) {
        let k = choose|k: int| 0 <= k < sources.len() && !(#[trigger] sources[k]).eligible;
        assert(!(sources[k].eligible && sources[k].current_revision is Some));
    } else {
        let k = choose|k: int|
            0 <= k < sources.len() && !((#[trigger] sources[k]).current_revision is Some);
        assert(!(sources[k].eligible && sources[k].current_revision is Some));
    }
}

/// Planning is told the present revision of each item of an occurrence.
pub proof fn planning_is_told_present_revisions(
    sources: Seq<RoutineOccurrenceSourceEvidence>,
    id: Uuid,
    k: int,
    count: nat,
)
    requires
        0 <= k < count <= sources.len(),
        sources[k].item_id == id,
        forall|j: int| k < j < count ==> (#[trigger] sources[j]).item_id != id,
    ensures
        revision_of(sources, id, count) == sources[k].current_revision,
    decreases count,
{
    if k < count - 1 {
        assert(sources[count - 1].item_id != id);
        planning_is_told_present_revisions(sources, id, k, (count - 1) as nat);
    }
}

/// A page begins where it may: not ahead of the stream, and within the head that a list
/// captured. A page with more behind it is followed by one that begins after its last change,
/// within the same head; the last page of a list is followed by the changes after that head.
pub proof fn pages_begin_and_end_where_they_may(
    request: PageRequest,
    head: u64,
    list: bool,
    changes: Seq<RoutineOccurrenceChange>,
    has_more: bool,
    place: Cursor,
)
    ensures
        can_begin(place, head, list) <==> place.after <= head && (place.list_head is Some) == list
            && (place.list_head is Some ==> place.after <= place.list_head->0
            && place.list_head->0 <= head),
        place.list_head is Some ==> page_head(place, head) == place.list_head->0,
        place.list_head is None ==> page_head(place, head) == head,
        ({
            let next = next_place(request, changes, has_more);
            &&& next.workspace == request.place.workspace
            &&& has_more && changes.len() > 0 ==> next.after == changes[changes.len()
                - 1].sequence
            &&& has_more && changes.len() == 0 ==> next.after == request.place.after
            &&& has_more ==> next.list_head == request.place.list_head
            &&& !has_more ==> next.after == request.head && next.list_head is None
        }),
{
}

/// The definition of a routine names its root, where the root stands, its recurrence and time
/// zone, and what each member contributes; there is none without the root, and none of a root
/// that is no routine.
pub proof fn definitions_are_those_of_the_routine(
    subtree: Seq<&Item>,
    root_id: Uuid,
    result: Result<crate::routines::evidence::RoutineDefinition, RoutineOccurrenceError>,
    place: int,
    k: int,
)
    requires
        crate::routines::evidence::defines_routine(subtree, root_id, result),
    ensures
        (forall|j: int| 0 <= j < subtree.len() ==> (#[trigger] subtree[j]).id != root_id)
            ==> result == Err::<
            crate::routines::evidence::RoutineDefinition,
            RoutineOccurrenceError,
        >(RoutineOccurrenceError::OccurrenceMissing),
        0 <= place < subtree.len() && subtree[place].id == root_id && (forall|j: int|
            0 <= j < place ==> (#[trigger] subtree[j]).id != root_id) ==> {
            let root = *subtree[place];
            &&& result is Ok <==> root.recurrence is Some && (root.kind == ItemKind::Task
                || root.kind == ItemKind::Routine)
            &&& result is Ok ==> {
                let definition = result->Ok_0;
                &&& definition.root_id == root_id
                &&& definition.root_parent_id == root.parent_id
                &&& crate::json::optional_json_same(root.recurrence, definition.recurrence)
                &&& definition.timezone_name@ == root.timezone_name@
                &&& definition.members@.len() == subtree.len()
                &&& 0 <= k < subtree.len() ==> definition.members@[k].item_id == subtree[k].id
                    && definition.members@[k].kind == subtree[k].kind
                    && definition.members@[k].sibling_order == subtree[k].sibling_order
                    && definition.members@[k].timezone_name@ == subtree[k].timezone_name@
            }
        },
{
    if forall|j: int| 0 <= j < subtree.len() ==> (#[trigger] subtree[j]).id != root_id {
        lemma_no_root(subtree, root_id, 0);
    }
    if 0 <= place < subtree.len() && subtree[place].id == root_id && (forall|j: int|
        0 <= j < place ==> (#[trigger] subtree[j]).id != root_id) {
        lemma_root_place(subtree, root_id, 0, place);
        if result is Ok && 0 <= k < subtree.len() {
            assert(defines_member(*subtree[k], root_id, result->Ok_0.members@[k]));
        }
    }
}

proof fn lemma_no_root(subtree: Seq<&Item>, root_id: Uuid, k: int)
    requires
        0 <= k,
        forall|j: int| 0 <= j < subtree.len() ==> (#[trigger] subtree[j]).id != root_id,
    ensures
        crate::routines::evidence::first_place(subtree, root_id, k) is None,
    decreases subtree.len() - k,
{
    if k < subtree.len() {
        assert(subtree[k].id != root_id);
        lemma_no_root(subtree, root_id, k + 1);
    }
}

proof fn lemma_root_place(subtree: Seq<&Item>, root_id: Uuid, k: int, place: int)
    requires
        0 <= k <= place < subtree.len(),
        subtree[place].id == root_id,
        forall|j: int| 0 <= j < place ==> (#[trigger] subtree[j]).id != root_id,
    ensures
        crate::routines::evidence::first_place(subtree, root_id, k) == Some(place),
    decreases place - k,
{
    if k < place {
        assert(subtree[k].id != root_id);
        lemma_root_place(subtree, root_id, k + 1, place);
    }
}

/// The members of a routine are the items with the identifiers that were found, each once and
/// in order.
pub proof fn members_are_the_items_that_were_found(
    items: Seq<Item>,
    ids: Seq<Uuid>,
    members: Seq<&Item>,
    i: int,
    j: int,
)
    requires
        crate::routines::evidence::members_are(items, ids, members),
        0 <= i < j < members.len(),
    ensures
        members[i].id < members[j].id,
        ids.contains(members[i].id),
        items.contains(*members[i]),
        forall|id: Uuid| #[trigger]
            ids.contains(id) ==> exists|k: int|
                0 <= k < members.len() && (#[trigger] members[k]).id == id,
{
    let place = place_of(items, members[i].id)->0;
    crate::routines::evidence::lemma_place(items, members[i].id);
    assert(items[place] == *members[i]);
}

/// An occurrence is kept exactly if none of its instants has a part below a microsecond, and a
/// request for it is the one that was answered exactly if it asks for the same change of the
/// same member of the same occurrence.
pub proof fn occurrences_are_kept_to_the_microsecond(
    occurrence: PublishedOccurrence,
    receipt: crate::routines::model::OccurrenceReceipt,
    instance_id: Uuid,
    member_id: Uuid,
    request: Json,
)
    ensures
        crate::routines::admission::keeps_instants(occurrence) <==> {
            &&& occurrence.nominal_start as int % 1_000 == 0
            &&& occurrence.nominal_end as int % 1_000 == 0
            &&& occurrence.window_start as int % 1_000 == 0
            &&& occurrence.window_end as int % 1_000 == 0
        },
        crate::routines::model::receipt_matches(receipt, instance_id, member_id, request)
            <==> receipt.instance_id == instance_id && receipt.member_id == member_id
            && crate::json::json_same(receipt.request, request),
{
}

/// Work and occurrences that are named stand in order, by the item and then by the
/// occurrence, so that none occurs twice.
pub proof fn names_stand_in_order(
    units: Seq<RoutineOccurrenceWorkUnit>,
    keys: Seq<crate::routines::planning::OccurrenceKey>,
    i: int,
    j: int,
)
    ensures
        crate::routines::evidence::units_increasing(units) && 0 <= i < j < units.len() ==> {
            &&& units[i].item_id <= units[j].item_id
            &&& units[i].item_id == units[j].item_id ==> units[i].occurrence_id
                < units[j].occurrence_id
        },
        crate::routines::planning::keys_in_order(keys) && 0 <= i < j < keys.len() ==> {
            &&& keys[i].0 <= keys[j].0
            &&& keys[i].0 == keys[j].0 ==> keys[i].1 < keys[j].1
        },
        0 <= i < keys.len() ==> (crate::routines::planning::key_named(keys[i]) <==> keys[i].0 != 0
            && keys[i].1 != 0),
{
    if crate::routines::evidence::units_increasing(units) && 0 <= i < j < units.len() {
        assert(crate::routines::evidence::unit_before(units[i], units[j]));
    }
    if crate::routines::planning::keys_in_order(keys) && 0 <= i < j < keys.len() {
        assert(crate::routines::planning::key_before(keys[i], keys[j]));
    }
}

/// A cursor is read only in its own workspace, and only with numbers that can be stored.
pub proof fn cursors_are_read_in_their_workspace(
    text: Seq<char>,
    workspace: Uuid,
    cursor: Cursor,
)
    requires
        crate::routines::cursors::reads_as(text, workspace, cursor),
    ensures
        cursor.workspace == workspace,
        cursor.after <= i64::MAX,
        cursor.list_head is Some ==> cursor.list_head->0 <= i64::MAX,
        text == crate::routines::cursors::cursor_text(cursor),
{
}

} // verus!
