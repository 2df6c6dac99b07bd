//! Admission: how the occurrences of a published schedule become occurrences of routines.
use std::collections::BTreeMap;

use vstd::prelude::*;

use crate::ids::insert_id;
use crate::items::completion::ItemCompletionState;
use crate::items::model::Item;
use crate::json::Json;
use crate::routines::evidence::{
    recurs_as_routine, source_eligible, CurrentEvidence, RoutineOccurrenceWorkUnit,
};
use crate::routines::model::{
    ItemCompletionReopenState, OccurrenceLimits, RoutineOccurrenceError,
    RoutineOccurrenceManifest, RoutineOccurrenceMemberDefinition,
};
use crate::text::same_text;
use crate::time::{truncate_to_micros, Instant, Uuid};

verus! {

/// An occurrence of a schedule that was published.
#[derive(Debug)]
pub struct PublishedOccurrence {
    pub series_item_id: Uuid,
    pub occurrence_id: Uuid,
    /// Which occurrence of the recurrence this is.
    pub identity: Json,
    /// Whether nothing has been decided about the occurrence yet.
    pub generated: bool,
    pub nominal_start: Instant,
    pub nominal_end: Instant,
    pub window_start: Instant,
    pub window_end: Instant,
}

/// What came of the occurrences of a schedule.
#[derive(Debug)]
pub struct RoutineOccurrenceAdmission {
    pub admitted_instance_ids: Vec<Uuid>,
    /// The routines that could not be taken up as they are, in order.
    pub unsupported_root_ids: Vec<Uuid>,
}

impl RoutineOccurrenceAdmission {
    /// Whether each routine that could not be taken up is named once.
    pub open spec fn sound(self) -> bool {
        crate::ids::increasing(self.unsupported_root_ids@)
    }

    /// Nothing has come of any occurrence yet.
    pub fn new() -> (result: RoutineOccurrenceAdmission)
        ensures
            result.sound(),
            result.admitted_instance_ids@ == Seq::<Uuid>::empty(),
            result.unsupported_root_ids@ == Seq::<Uuid>::empty(),
    {
        RoutineOccurrenceAdmission {
            admitted_instance_ids: Vec::new(),
            unsupported_root_ids: Vec::new(),
        }
    }

    /// An occurrence was taken up.
    pub fn admit_instance(&mut self, instance_id: Uuid)
        requires
            old(self).sound(),
        ensures
            final(self).sound(),
            final(self).admitted_instance_ids@ == old(self).admitted_instance_ids@.push(
                instance_id,
            ),
            final(self).unsupported_root_ids == old(self).unsupported_root_ids,
    {
        self.admitted_instance_ids.push(instance_id);
    }

    /// A routine could not be taken up as it is.
    pub fn withhold(&mut self, root_id: Uuid)
        requires
            old(self).sound(),
        ensures
            final(self).sound(),
            final(self).admitted_instance_ids == old(self).admitted_instance_ids,
            forall|id: Uuid| #[trigger]
                final(self).unsupported_root_ids@.contains(id) <==> old(
                    self,
                ).unsupported_root_ids@.contains(id) || id == root_id,
    {
        insert_id(&mut self.unsupported_root_ids, root_id);
    }
}

/// Whether an item has the revision that the schedule was made with.
pub open spec fn revision_matches(items: Seq<Item>, revisions: Map<Uuid, u64>, id: Uuid) -> bool {
    revisions.contains_key(id) && crate::routines::evidence::place_of(items, id) is Some
        && revisions[id] == items[crate::routines::evidence::place_of(items, id)->0].revision
}

/// Whether all items have the revisions that the schedule was made with.
pub open spec fn revisions_match(
    items: Seq<Item>,
    revisions: Map<Uuid, u64>,
    ids: Seq<Uuid>,
) -> bool {
    forall|id: Uuid| #[trigger] ids.contains(id) ==> revision_matches(items, revisions, id)
}

/// The items of the routine that an occurrence is of, or `None` if it is not of a routine.
/// They have to be those that the schedule was made with.
pub fn published_source<'a>(
    current: &'a CurrentEvidence,
    root_id: Uuid,
    revisions: &BTreeMap<Uuid, u64>,
    limits: OccurrenceLimits,
) -> (result: Result<Option<Vec<&'a Item>>, RoutineOccurrenceError>)
    requires
        current.sound(),
    ensures
        match crate::routines::evidence::place_of(current.items@, root_id) {
            None => result matches Err(error) && error == RoutineOccurrenceError::SourceIneligible,
            Some(place) => if !crate::routines::evidence::is_routine(current.items@[place]) {
                result matches Ok(source) && source is None
            } else {
                match crate::routines::evidence::subtree_of(
                    current.items@,
                    root_id,
                    limits.members as nat,
                ) {
                    Err(refusal) => result matches Err(error) && error == refusal,
                    Ok(ids) => match result {
                        Ok(source) => {
                            &&& source matches Some(members)
                            &&& crate::routines::evidence::members_are(
                                current.items@,
                                ids,
                                members@,
                            )
                            &&& revisions_match(current.items@, revisions@, ids)
                        },
                        Err(error) => error == RoutineOccurrenceError::EvidenceStale
                            && !revisions_match(current.items@, revisions@, ids),
                    },
                }
            },
        },
{
    proof {
        crate::routines::evidence::lemma_place(current.items@, root_id);
        assert(current.by_id@.contains_key(root_id) == (crate::routines::evidence::place_of(
            current.items@,
            root_id,
        ) is Some));
    }
    let root: &Item = match current.by_id.get(&root_id) {
        Some(place) => &current.items[*place],
        None => {
            return Err(RoutineOccurrenceError::SourceIneligible);
        },
    };
    if !recurs_as_routine(root) {
        return Ok(None);
    }
    let members: Vec<&'a Item> = current.subtree(root_id, limits)?;
    let ghost ids = crate::routines::evidence::subtree_of(
        current.items@,
        root_id,
        limits.members as nat,
    )->Ok_0;
    let mut i: usize = 0;
    while i < members.len()
        invariant
            i <= members@.len(),
            crate::routines::evidence::members_are(current.items@, ids, members@),
            forall|k: int|
                0 <= k < i ==> revision_matches(
                    current.items@,
                    revisions@,
                    (#[trigger] members@[k]).id,
                ),
            crate::routines::evidence::subtree_of(
                current.items@,
                root_id,
                limits.members as nat,
            ) == Ok::<Seq<Uuid>, RoutineOccurrenceError>(ids),
            crate::routines::evidence::place_of(current.items@, root_id) matches Some(place)
                && crate::routines::evidence::is_routine(current.items@[place]),
        decreases members.len() - i,
    {
        let current_revision: bool = match revisions.get(&members[i].id) {
            Some(revision) => *revision == members[i].revision,
            None => false,
        };
        if !current_revision {
            assert(ids.contains(members@[i as int].id));
            assert(!revision_matches(current.items@, revisions@, members@[i as int].id));
            return Err(RoutineOccurrenceError::EvidenceStale);
        }
        i = i + 1;
    }
    proof {
        assert forall|id: Uuid| #[trigger] ids.contains(id) implies revision_matches(
            current.items@,
            revisions@,
            id,
        ) by {
            let k = choose|k: int| 0 <= k < members@.len() && (#[trigger] members@[k]).id == id;
            assert(revision_matches(current.items@, revisions@, members@[k].id));
        }
    }
    Ok(Some(members))
}

/// Whether an occurrence can be taken up: nothing has been decided about it, its items are
/// open, and none of them is being worked on for it.
pub open spec fn can_admit(
    members: Seq<&Item>,
    occurrence: PublishedOccurrence,
    units: Seq<RoutineOccurrenceWorkUnit>,
) -> bool {
    &&& occurrence.generated
    &&& forall|k: int|
        0 <= k < members.len() ==> crate::routines::evidence::eligible(
            (#[trigger] members[k]).status,
        )
    &&& forall|u: int, k: int|
        0 <= u < units.len() && 0 <= k < members.len() ==> !((#[trigger] units[u]).item_id == (
        #[trigger] members[k]).id && units[u].occurrence_id == occurrence.occurrence_id)
}

/// Whether an occurrence can be taken up.
pub fn is_admissible(
    members: &Vec<&Item>,
    occurrence: &PublishedOccurrence,
    units: &Vec<RoutineOccurrenceWorkUnit>,
) -> (result: bool)
    ensures
        result == can_admit(members@, *occurrence, units@),
{
    if !occurrence.generated {
        return false;
    }
    let mut i: usize = 0;
    while i < members.len()
        invariant
            i <= members@.len(),
            forall|k: int|
                0 <= k < i ==> crate::routines::evidence::eligible((#[trigger] members@[k]).status),
        decreases members.len() - i,
    {
        if !source_eligible(members[i]) {
            assert(!crate::routines::evidence::eligible(members@[i as int].status));
            return false;
        }
        i = i + 1;
    }
    let mut u: usize = 0;
    while u < units.len()
        invariant
            u <= units@.len(),
            forall|v: int, k: int|
                0 <= v < u && 0 <= k < members@.len() ==> !((#[trigger] units@[v]).item_id == (
                #[trigger] members@[k]).id && units@[v].occurrence_id == occurrence.occurrence_id),
        decreases units.len() - u,
    {
        if units[u].occurrence_id == occurrence.occurrence_id {
            let mut k: usize = 0;
            while k < members.len()
                invariant
                    k <= members@.len(),
                    u < units@.len(),
                    units@[u as int].occurrence_id == occurrence.occurrence_id,
                    forall|n: int| 0 <= n < k ==> units@[u as int].item_id != (
                    #[trigger] members@[n]).id,
                decreases members.len() - k,
            {
                if members[k].id == units[u].item_id {
                    assert(units@[u as int].item_id == members@[k as int].id);
                    return false;
                }
                k = k + 1;
            }
        }
        u = u + 1;
    }
    true
}

/// What becomes of an occurrence of a routine.
#[derive(Debug)]
pub enum AdmissionStep {
    /// It was taken up before, as this one.
    Known { instance_id: Uuid },
    /// It is taken up now, with this definition.
    Fresh { definition_hash: String },
    /// It cannot be taken up as it is.
    Withheld,
}

/// Whether an occurrence that was taken up before is still of the same routine, and the
/// same occurrence of it.
pub open spec fn same_occurrence(
    manifest: RoutineOccurrenceManifest,
    definition_hash: Seq<char>,
    identity: Json,
) -> bool {
    manifest.definition_hash@ == definition_hash && crate::json::json_same(
        manifest.identity,
        identity,
    )
}

/// Decides what becomes of an occurrence. `definition` is the hash of the routine as it is
/// now, and `existing` what was taken up before for the same occurrence.
pub fn admission_step(
    members: &Vec<&Item>,
    occurrence: &PublishedOccurrence,
    definition: Result<String, RoutineOccurrenceError>,
    existing: Result<Option<&RoutineOccurrenceManifest>, RoutineOccurrenceError>,
    units: &Vec<RoutineOccurrenceWorkUnit>,
) -> (result: Result<AdmissionStep, RoutineOccurrenceError>)
    ensures
        match definition {
            Err(refusal) => result matches Err(error) && error == refusal,
            Ok(hash) => match existing {
                Err(refusal) => result matches Err(error) && error == refusal,
                Ok(Some(manifest)) => if same_occurrence(*manifest, hash@, occurrence.identity) {
                    result matches Ok(step) && step == (AdmissionStep::Known {
                        instance_id: manifest.id,
                    })
                } else {
                    result matches Err(error) && error == RoutineOccurrenceError::DefinitionChanged
                },
                Ok(None) => if can_admit(members@, *occurrence, units@) {
                    result matches Ok(step) && step == (AdmissionStep::Fresh {
                        definition_hash: hash,
                    })
                } else {
                    result matches Ok(step) && step == AdmissionStep::Withheld
                },
            },
        },
{
    let definition_hash: String = definition?;
    match existing? {
        Some(manifest) => {
            if !same_text(manifest.definition_hash.as_str(), definition_hash.as_str())
                || !manifest.identity.same(&occurrence.identity) {
                return Err(RoutineOccurrenceError::DefinitionChanged);
            }
            Ok(AdmissionStep::Known { instance_id: manifest.id })
        },
        None => {
            if is_admissible(members, occurrence, units) {
                Ok(AdmissionStep::Fresh { definition_hash })
            } else {
                Ok(AdmissionStep::Withheld)
            }
        },
    }
}

/// An instant of a schedule as occurrences keep it: to the microsecond.
pub fn core_instant(value: Instant) -> (result: Result<Instant, RoutineOccurrenceError>)
    requires
        crate::time::in_time_range(value),
    ensures
        result == (if value as int % 1_000 == 0 {
            Ok::<Instant, RoutineOccurrenceError>(value)
        } else {
            Err(RoutineOccurrenceError::Invalid)
        }),
{
    if truncate_to_micros(value) != value {
        Err(RoutineOccurrenceError::Invalid)
    } else {
        Ok(value)
    }
}

/// Whether a member is required for its parent: it is unless its completion says
/// otherwise.
pub open spec fn required(policies: Map<Uuid, ItemCompletionState>, id: Uuid) -> bool {
    policies.contains_key(id) ==> policies[id].required_for_parent
}

/// Whether this is how an item is kept as a member of an occurrence.
pub open spec fn admits_member(
    item: Item,
    root_id: Uuid,
    policies: Map<Uuid, ItemCompletionState>,
    member: RoutineOccurrenceMemberDefinition,
) -> bool {
    &&& member.item_id == item.id
    &&& member.parent_id == (if item.id == root_id {
        None::<Uuid>
    } else {
        item.parent_id
    })
    &&& member.source_revision == item.revision
    &&& member.title == item.title
    &&& member.kind == item.kind
    &&& member.recurs == (item.recurrence is Some)
    &&& member.sibling_order == item.sibling_order
    &&& member.required_for_parent == required(policies, item.id)
    &&& member.initial_open.status == item.status
    &&& member.initial_open.blocked_reason_kind == item.blocked_reason_kind
    &&& member.initial_open.blocked_by_item_id == item.blocked_by_item_id
    &&& crate::text::optional_text(member.initial_open.blocked_reason)
        == crate::text::optional_text(item.blocked_reason)
}

/// How an item is kept as a member of an occurrence.
fn admitted_member(
    item: &Item,
    root_id: Uuid,
    policies: &BTreeMap<Uuid, ItemCompletionState>,
) -> (result: RoutineOccurrenceMemberDefinition)
    ensures
        admits_member(*item, root_id, policies@, result),
{
    let required_for_parent: bool = match policies.get(&item.id) {
        Some(state) => state.required_for_parent,
        None => true,
    };
    RoutineOccurrenceMemberDefinition {
        item_id: item.id,
        parent_id: if item.id == root_id {
            None
        } else {
            item.parent_id
        },
        source_revision: item.revision,
        title: item.title.clone(),
        kind: item.kind,
        recurs: item.recurrence.is_some(),
        sibling_order: item.sibling_order,
        required_for_parent,
        initial_open: ItemCompletionReopenState {
            status: item.status,
            blocked_reason_kind: item.blocked_reason_kind,
            blocked_by_item_id: item.blocked_by_item_id,
            blocked_reason: item.blocked_reason.clone(),
        },
    }
}

/// Whether an occurrence can be kept: its instants have no part below a microsecond.
pub open spec fn keeps_instants(occurrence: PublishedOccurrence) -> bool {
    occurrence.nominal_start as int % 1_000 == 0 && occurrence.nominal_end as int % 1_000 == 0
        && occurrence.window_start as int % 1_000 == 0 && occurrence.window_end as int % 1_000 == 0
}

/// Whether the instants of an occurrence are in range.
pub open spec fn instants_in_range(occurrence: PublishedOccurrence) -> bool {
    crate::time::in_time_range(occurrence.nominal_start) && crate::time::in_time_range(
        occurrence.nominal_end,
    ) && crate::time::in_time_range(occurrence.window_start) && crate::time::in_time_range(
        occurrence.window_end,
    )
}

/// The occurrence as it is kept when it is taken up, under the identifier `id`, in the time
/// zone of its routine. `policies` is what is known of the completion of its items.
pub fn new_manifest(
    id: Uuid,
    occurrence: PublishedOccurrence,
    members: &Vec<&Item>,
    definition_hash: String,
    policies: &BTreeMap<Uuid, ItemCompletionState>,
) -> (result: Result<RoutineOccurrenceManifest, RoutineOccurrenceError>)
    requires
        instants_in_range(occurrence),
        crate::routines::evidence::first_place(members@, occurrence.series_item_id, 0) is Some,
    ensures
        match result {
            Ok(manifest) => {
                &&& keeps_instants(occurrence)
                &&& manifest.schema_version == 1
                &&& manifest.id == id
                &&& manifest.series_item_id == occurrence.series_item_id
                &&& manifest.occurrence_id == occurrence.occurrence_id
                &&& manifest.identity == occurrence.identity
                &&& manifest.nominal_start == occurrence.nominal_start
                &&& manifest.nominal_end == occurrence.nominal_end
                &&& manifest.window_start == occurrence.window_start
                &&& manifest.window_end == occurrence.window_end
                &&& manifest.timezone_name@ == members@[crate::routines::evidence::first_place(
                    members@,
                    occurrence.series_item_id,
                    0,
                )->0].timezone_name@
                &&& manifest.definition_hash == definition_hash
                &&& manifest.members@.len() == members@.len()
                &&& forall|k: int|
                    0 <= k < members@.len() ==> admits_member(
                        *members@[k],
                        occurrence.series_item_id,
                        policies@,
                        #[trigger] manifest.members@[k],
                    )
            },
            Err(error) => !keeps_instants(occurrence) && error == RoutineOccurrenceError::Invalid,
        },
{
    let nominal_start: Instant = core_instant(occurrence.nominal_start)?;
    let nominal_end: Instant = core_instant(occurrence.nominal_end)?;
    let window_start: Instant = core_instant(occurrence.window_start)?;
    let window_end: Instant = core_instant(occurrence.window_end)?;
    let root_id: Uuid = occurrence.series_item_id;
    let mut place: usize = 0;
    while place < members.len() && members[place].id != root_id
        invariant
            place <= members@.len(),
            crate::routines::evidence::first_place(members@, root_id, 0)
                == crate::routines::evidence::first_place(members@, root_id, place as int),
        decreases members.len() - place,
    {
        place = place + 1;
    }
    let timezone_name: String = members[place].timezone_name.clone();
    let mut definitions: Vec<RoutineOccurrenceMemberDefinition> = Vec::new();
    let mut i: usize = 0;
    while i < members.len()
        invariant
            i <= members@.len(),
            definitions@.len() == i,
            forall|k: int|
                0 <= k < i ==> admits_member(
                    *members@[k],
                    root_id,
                    policies@,
                    #[trigger] definitions@[k],
                ),
        decreases members.len() - i,
    {
        definitions.push(admitted_member(members[i], root_id, policies));
        i = i + 1;
    }
    Ok(
        RoutineOccurrenceManifest {
            schema_version: 1,
            id,
            series_item_id: root_id,
            occurrence_id: occurrence.occurrence_id,
            identity: occurrence.identity,
            nominal_start,
            nominal_end,
            window_start,
            window_end,
            timezone_name,
            definition_hash,
            members: definitions,
        },
    )
}

/// The revisions of the items that an occurrence was published with.
pub fn source_revisions(members: &Vec<&Item>) -> (result: Vec<(Uuid, u64)>)
    ensures
        result@.len() == members@.len(),
        forall|k: int|
            0 <= k < members@.len() ==> #[trigger] result@[k] == (
                members@[k].id,
                members@[k].revision,
            ),
{
    let mut revisions: Vec<(Uuid, u64)> = Vec::new();
    let mut i: usize = 0;
    while i < members.len()
        invariant
            i <= members@.len(),
            revisions@.len() == i,
            forall|k: int|
                0 <= k < i ==> #[trigger] revisions@[k] == (members@[k].id, members@[k].revision),
        decreases members.len() - i,
    {
        revisions.push((members[i].id, members[i].revision));
        i = i + 1;
    }
    revisions
}

/// Whether the publication of an occurrence still has to be recorded. One that was
/// recorded with other revisions is stale.
pub open spec fn publication_outcome(existing: Option<Json>, revisions: Json) -> Result<
    bool,
    RoutineOccurrenceError,
> {
    match existing {
        None => Ok(true),
        Some(recorded) => if crate::json::json_same(recorded, revisions) {
            Ok(false)
        } else {
            Err(RoutineOccurrenceError::EvidenceStale)
        },
    }
}

/// Whether the publication of an occurrence still has to be recorded.
pub fn publication_step(existing: &Option<Json>, revisions: &Json) -> (result: Result<
    bool,
    RoutineOccurrenceError,
>)
    ensures
        result == publication_outcome(*existing, *revisions),
{
    match existing {
        None => Ok(true),
        Some(recorded) => {
            if recorded.same(revisions) {
                Ok(false)
            } else {
                Err(RoutineOccurrenceError::EvidenceStale)
            }
        },
    }
}

/// An occurrence that was taken up is the same occurrence when it is published again with
/// an unchanged routine, whatever has been decided about it since.
pub proof fn admitted_occurrence_is_known_again(
    manifest: RoutineOccurrenceManifest,
    occurrence: PublishedOccurrence,
    again: PublishedOccurrence,
    definition_hash: String,
)
    requires
        manifest.identity == occurrence.identity,
        manifest.definition_hash == definition_hash,
        crate::json::json_same(occurrence.identity, again.identity),
    ensures
        same_occurrence(manifest, definition_hash@, again.identity),
{
}

/// A publication that was recorded is not recorded a second time.
pub proof fn publication_is_recorded_once(revisions: Json)
    ensures
        publication_outcome(Some(revisions), revisions) == Ok::<bool, RoutineOccurrenceError>(
            false,
        ),
{
    crate::json::json_same_reflexive(revisions);
}

} // verus!
