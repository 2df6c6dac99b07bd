//! What planning may rely on: occurrences whose routines are still what they were.
use std::collections::BTreeMap;

use vstd::prelude::*;

use crate::routines::evidence::{RoutineOccurrenceEvidence, RoutineOccurrenceSourceEvidence};
use crate::routines::model::{
    unsigned, OccurrenceLimits, RoutineOccurrenceAggregate, RoutineOccurrenceError,
};
use crate::text::same_text;
use crate::time::Uuid;

verus! {

/// A series and one of its occurrences.
pub type OccurrenceKey = (Uuid, Uuid);

/// Whether a key comes before another.
pub open spec fn key_before(a: OccurrenceKey, b: OccurrenceKey) -> bool {
    a.0 < b.0 || (a.0 == b.0 && a.1 < b.1)
}

/// Whether keys are in order, so that none occurs twice.
pub open spec fn keys_in_order(keys: Seq<OccurrenceKey>) -> bool {
    forall|i: int, j: int|
        0 <= i < j < keys.len() ==> key_before(#[trigger] keys[i], #[trigger] keys[j])
}

/// Whether a key names a series and an occurrence.
pub open spec fn key_named(key: OccurrenceKey) -> bool {
    key.0 != 0 && key.1 != 0
}

/// Puts a key in its place, unless it is there already.
fn insert_key(keys: &mut Vec<OccurrenceKey>, key: OccurrenceKey) -> (result: bool)
    requires
        keys_in_order(old(keys)@),
    ensures
        result == !old(keys)@.contains(key),
        !result ==> final(keys)@ == old(keys)@,
        result ==> keys_in_order(final(keys)@) && final(keys)@.to_multiset()
            =~= old(keys)@.to_multiset().insert(key),
{
    let mut place: usize = keys.len();
    while place > 0 && (key.0 < keys[place - 1].0 || (key.0 == keys[place - 1].0 && key.1
        < keys[place - 1].1))
        invariant
            place <= keys@.len(),
            keys@ == old(keys)@,
            forall|k: int| place <= k < keys@.len() ==> key_before(key, #[trigger] keys@[k]),
        decreases place,
    {
        place = place - 1;
    }
    let ghost before = keys@;
    if place > 0 && keys[place - 1].0 == key.0 && keys[place - 1].1 == key.1 {
        assert(before[place - 1] == key);
        return false;
    }
    proof {
        if before.contains(key) {
            let k = choose|k: int| 0 <= k < before.len() && before[k] == key;
            if k < place - 1 {
                assert(key_before(before[k], before[place - 1]));
            } else if k >= place {
                assert(key_before(key, before[k]));
            }
        }
    }
    keys.insert(place, key);
    proof {
        vstd::seq_lib::to_multiset_insert(before, place as int, key);
        assert(place > 0 ==> key_before(before[place - 1], key));
        assert forall|i: int, j: int| 0 <= i < j < keys@.len() implies key_before(
            #[trigger] keys@[i],
            #[trigger] keys@[j],
        ) by {
            let old_i = if i < place {
                i
            } else {
                i - 1
            };
            let old_j = if j < place {
                j
            } else {
                j - 1
            };
            if i == place {
                assert(key_before(key, before[old_j]));
            } else if j == place {
                if i < place - 1 {
                    assert(key_before(before[i], before[place - 1]));
                }
            } else {
                assert(key_before(before[old_i], before[old_j]));
            }
        }
    }
    true
}

/// The occurrences that evidence is asked for, in order. No more may be asked for than an
/// occurrence may have members, each has to be named, and none twice.
pub fn planning_identities(identities: &Vec<OccurrenceKey>, limits: OccurrenceLimits) -> (result:
    Result<Vec<OccurrenceKey>, RoutineOccurrenceError>)
    ensures
        match result {
            Ok(keys) => {
                &&& identities@.len() <= limits.members
                &&& forall|k: int|
                    0 <= k < identities@.len() ==> key_named(#[trigger] identities@[k])
                &&& identities@.no_duplicates()
                &&& keys_in_order(keys@)
                &&& keys@.to_multiset() =~= identities@.to_multiset()
            },
            Err(error) => if identities@.len() > limits.members {
                error == RoutineOccurrenceError::TooLarge
            } else {
                error == RoutineOccurrenceError::Invalid && (!identities@.no_duplicates() || exists|
                    k: int,
                |
                    0 <= k < identities@.len() && !key_named(#[trigger] identities@[k]))
            },
        },
{
    if identities.len() > limits.members {
        return Err(RoutineOccurrenceError::TooLarge);
    }
    let mut keys: Vec<OccurrenceKey> = Vec::new();
    let mut i: usize = 0;
    proof {
        assert(identities@.take(0) =~= Seq::<OccurrenceKey>::empty());
        assert(keys@ =~= identities@.take(0));
    }
    while i < identities.len()
        invariant
            i <= identities@.len(),
            identities@.len() <= limits.members,
            keys_in_order(keys@),
            keys@.to_multiset() =~= identities@.take(i as int).to_multiset(),
            identities@.take(i as int).no_duplicates(),
            forall|k: int| 0 <= k < i ==> key_named(#[trigger] identities@[k]),
        decreases identities.len() - i,
    {
        let key: OccurrenceKey = identities[i];
        let ghost shorter = identities@.take(i as int);
        let ghost longer = identities@.take(i + 1);
        proof {
            assert(longer =~= shorter.push(key));
            vstd::seq_lib::to_multiset_build(shorter, key);
            shorter.to_multiset_ensures();
            keys@.to_multiset_ensures();
            assert(keys@.to_multiset().count(key) == shorter.to_multiset().count(key));
            assert(keys@.contains(key) <==> shorter.contains(key));
        }
        if key.0 == 0 || key.1 == 0 {
            assert(!key_named(identities@[i as int]));
            return Err(RoutineOccurrenceError::Invalid);
        }
        if !insert_key(&mut keys, key) {
            proof {
                let k = choose|k: int| 0 <= k < shorter.len() && shorter[k] == key;
                assert(identities@[k] == identities@[i as int]);
            }
            return Err(RoutineOccurrenceError::Invalid);
        }
        i = i + 1;
    }
    assert(identities@.take(i as int) =~= identities@);
    Ok(keys)
}

/// What planning has taken up so far.
#[derive(Clone, Copy, Debug, PartialEq, Eq, Structural)]
pub struct PlanningBudget {
    pub bytes: usize,
    pub members: usize,
}

/// An occurrence that planning may rely on.
#[derive(Debug)]
pub struct RoutineOccurrencePlanningInstance {
    pub aggregate: RoutineOccurrenceAggregate,
    /// The revisions that its items have now.
    pub current_source_revisions: BTreeMap<Uuid, u64>,
}

/// The occurrences that planning may rely on, and the last change that they take in.
#[derive(Debug)]
pub struct RoutineOccurrencePlanningEvidence {
    pub change_head: u64,
    pub instances: Vec<RoutineOccurrencePlanningInstance>,
}

/// Whether every item is still one that an occurrence could be admitted with.
pub open spec fn all_eligible(sources: Seq<RoutineOccurrenceSourceEvidence>) -> bool {
    forall|k: int| 0 <= k < sources.len() ==> (#[trigger] sources[k]).eligible
}

/// Whether the present revision of every item is known.
pub open spec fn all_current(sources: Seq<RoutineOccurrenceSourceEvidence>) -> bool {
    forall|k: int| 0 <= k < sources.len() ==> (#[trigger] sources[k]).current_revision is Some
}

/// The revision that is known last of an item.
pub open spec fn revision_of(
    sources: Seq<RoutineOccurrenceSourceEvidence>,
    id: Uuid,
    count: nat,
) -> Option<u64>
    decreases count,
{
    if count == 0 {
        None
    } else if sources[count - 1].item_id == id {
        sources[count - 1].current_revision
    } else {
        revision_of(sources, id, (count - 1) as nat)
    }
}

/// Why planning may not rely on an occurrence: its routine has changed, an item cannot be
/// planned with any more, the occurrence cannot be changed as it is, or there is no room.
///
/// `editable` is whether the occurrence can be changed as it is shown, and `size` how many
/// bytes it has.
pub open spec fn planning_refusal(
    aggregate: RoutineOccurrenceAggregate,
    evidence: RoutineOccurrenceEvidence,
    editable: Result<bool, RoutineOccurrenceError>,
    size: Option<usize>,
    budget: PlanningBudget,
    limits: OccurrenceLimits,
) -> Option<RoutineOccurrenceError> {
    if evidence.current_definition_hash@ != aggregate.manifest.definition_hash@ {
        Some(RoutineOccurrenceError::DefinitionChanged)
    } else if !all_eligible(evidence.sources@) {
        Some(RoutineOccurrenceError::SourceIneligible)
    } else if editable is Err {
        Some(editable->Err_0)
    } else if !editable->Ok_0 {
        Some(RoutineOccurrenceError::SourceIneligible)
    } else if size is None {
        Some(RoutineOccurrenceError::Unavailable)
    } else if budget.bytes + size->0 > limits.bytes || budget.members + aggregate.members@.len()
        > limits.members {
        Some(RoutineOccurrenceError::TooLarge)
    } else if !all_current(evidence.sources@) {
        Some(RoutineOccurrenceError::SourceIneligible)
    } else {
        None
    }
}

/// Takes an occurrence into what planning may rely on.
#[verifier::loop_isolation(false)]
pub fn plan_instance(
    aggregate: RoutineOccurrenceAggregate,
    evidence: &RoutineOccurrenceEvidence,
    editable: Result<bool, RoutineOccurrenceError>,
    size: Option<usize>,
    budget: &mut PlanningBudget,
    limits: OccurrenceLimits,
) -> (result: Result<RoutineOccurrencePlanningInstance, RoutineOccurrenceError>)
    ensures
        match planning_refusal(aggregate, *evidence, editable, size, *old(budget), limits) {
            Some(refusal) => result matches Err(error) && error == refusal && *final(budget)
                == *old(budget),
            None => {
                &&& result matches Ok(instance)
                &&& instance.aggregate == aggregate
                &&& forall|id: Uuid| #[trigger]
                    instance.current_source_revisions@.contains_key(id) == (revision_of(
                        evidence.sources@,
                        id,
                        evidence.sources@.len(),
                    ) is Some)
                &&& forall|id: Uuid| #[trigger]
                    instance.current_source_revisions@.contains_key(id)
                        ==> instance.current_source_revisions@[id] == revision_of(
                        evidence.sources@,
                        id,
                        evidence.sources@.len(),
                    )->0
                &&& final(budget).bytes == old(budget).bytes + size->0
                &&& final(budget).members == old(budget).members + aggregate.members@.len()
            },
        },
{
    if !same_text(
        evidence.current_definition_hash.as_str(),
        aggregate.manifest.definition_hash.as_str(),
    ) {
        return Err(RoutineOccurrenceError::DefinitionChanged);
    }
    let sources: &Vec<RoutineOccurrenceSourceEvidence> = &evidence.sources;
    let mut i: usize = 0;
    while i < sources.len()
        invariant
            i <= sources@.len(),
            forall|k: int| 0 <= k < i ==> (#[trigger] sources@[k]).eligible,
        decreases sources.len() - i,
    {
        if !sources[i].eligible {
            assert(!sources@[i as int].eligible);
            return Err(RoutineOccurrenceError::SourceIneligible);
        }
        i = i + 1;
    }
    match editable {
        Err(error) => {
            return Err(error);
        },
        Ok(editable) => {
            if !editable {
                return Err(RoutineOccurrenceError::SourceIneligible);
            }
        },
    }
    let size: usize = match size {
        Some(size) => size,
        None => {
            return Err(RoutineOccurrenceError::Unavailable);
        },
    };
    let bytes: usize = match budget.bytes.checked_add(size) {
        Some(bytes) => bytes,
        None => {
            return Err(RoutineOccurrenceError::TooLarge);
        },
    };
    let members: usize = match budget.members.checked_add(aggregate.members.len()) {
        Some(members) => members,
        None => {
            return Err(RoutineOccurrenceError::TooLarge);
        },
    };
    if bytes > limits.bytes || members > limits.members {
        return Err(RoutineOccurrenceError::TooLarge);
    }
    let mut current_source_revisions: BTreeMap<Uuid, u64> = BTreeMap::new();
    let mut k: usize = 0;
    while k < sources.len()
        invariant
            k <= sources@.len(),
            forall|n: int| 0 <= n < k ==> (#[trigger] sources@[n]).current_revision is Some,
            forall|id: Uuid| #[trigger]
                current_source_revisions@.contains_key(id) == (revision_of(
                    sources@,
                    id,
                    k as nat,
                ) is Some),
            forall|id: Uuid| #[trigger]
                current_source_revisions@.contains_key(id) ==> current_source_revisions@[id]
                    == revision_of(sources@, id, k as nat)->0,
        decreases sources.len() - k,
    {
        match sources[k].current_revision {
            Some(revision) => {
                current_source_revisions.insert(sources[k].item_id, revision);
            },
            None => {
                assert(sources@[k as int].current_revision is None);
                return Err(RoutineOccurrenceError::SourceIneligible);
            },
        }
        k = k + 1;
    }
    budget.bytes = bytes;
    budget.members = members;
    Ok(RoutineOccurrencePlanningInstance { aggregate, current_source_revisions })
}

/// Closes the evidence at the last change of the workspace.
pub fn planning_evidence(
    instances: Vec<RoutineOccurrencePlanningInstance>,
    change_head: i64,
) -> (result: Result<RoutineOccurrencePlanningEvidence, RoutineOccurrenceError>)
    ensures
        match result {
            Ok(evidence) => evidence.change_head == change_head && evidence.instances == instances,
            Err(error) => change_head < 0 && error == RoutineOccurrenceError::Unavailable,
        },
{
    let change_head: u64 = unsigned(change_head)?;
    Ok(RoutineOccurrencePlanningEvidence { change_head, instances })
}

/// Planning never relies on an occurrence whose routine has changed, or one of whose items
/// it cannot be planned with any more.
pub proof fn changed_routines_are_not_planned_with(
    aggregate: RoutineOccurrenceAggregate,
    evidence: RoutineOccurrenceEvidence,
    editable: Result<bool, RoutineOccurrenceError>,
    size: Option<usize>,
    budget: PlanningBudget,
    limits: OccurrenceLimits,
)
    requires
        planning_refusal(aggregate, evidence, editable, size, budget, limits) is None,
    ensures
        evidence.current_definition_hash@ == aggregate.manifest.definition_hash@,
        all_eligible(evidence.sources@),
        editable == Ok::<bool, RoutineOccurrenceError>(true),
{
}

} // verus!
