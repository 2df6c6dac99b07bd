//! The store of proposals.
use std::collections::BTreeMap;

use vstd::prelude::*;

use crate::proposals::domain::{Proposal, ProposalSource, ProposalStatus};
use crate::time::Uuid;

verus! {

/// Which proposals are asked for, and how many at most.
#[derive(Clone, Copy, Debug, PartialEq, Eq, Structural)]
pub struct ProposalQuery {
    pub status: Option<ProposalStatus>,
    pub source: Option<ProposalSource>,
    pub limit: usize,
}

impl Default for ProposalQuery {
    fn default() -> (result: Self)
        ensures
            result == (ProposalQuery { status: None, source: None, limit: 0 }),
    {
        ProposalQuery { status: None, source: None, limit: 0 }
    }
}

/// Why an operation of the store is refused.
#[derive(Clone, Copy, Debug, PartialEq, Eq, Structural)]
pub enum RepositoryError {
    NotFound(Uuid),
    Duplicate(Uuid),
    RevisionConflict { expected: u64, actual: u64 },
    Internal,
}

/// Whether every proposal stands under its identifier.
pub open spec fn keyed(proposals: Map<Uuid, Proposal>) -> bool {
    forall|id: Uuid| #[trigger] proposals.contains_key(id) ==> proposals[id].id == id
}

/// Whether `after` is `before` with `proposal` under its identifier.
pub open spec fn stores(
    before: Map<Uuid, Proposal>,
    after: Map<Uuid, Proposal>,
    proposal: Proposal,
) -> bool {
    &&& after.dom() == before.dom().insert(proposal.id)
    &&& crate::proposals::domain::proposal_same(proposal, after[proposal.id])
    &&& forall|id: Uuid|
        id != proposal.id && #[trigger] before.contains_key(id) ==> after[id] == before[id]
}

/// Why a proposal cannot be written over or deleted at an expected revision.
pub open spec fn revision_refusal(
    proposals: Map<Uuid, Proposal>,
    id: Uuid,
    expected_revision: u64,
) -> Option<RepositoryError> {
    if !proposals.contains_key(id) {
        Some(RepositoryError::NotFound(id))
    } else if proposals[id].revision != expected_revision {
        Some(
            RepositoryError::RevisionConflict {
                expected: expected_revision,
                actual: proposals[id].revision,
            },
        )
    } else {
        None
    }
}

/// Whether a query asks for a proposal.
pub open spec fn asked_for(query: ProposalQuery, proposal: Proposal) -> bool {
    &&& query.status is Some ==> proposal.status == query.status->0
    &&& query.source is Some ==> proposal.source == query.source->0
}

/// Whether `a` is listed before `b`: the newer one first, and of two of the same age the
/// one with the greater identifier.
pub open spec fn listed_before(a: Proposal, b: Proposal) -> bool {
    a.created_at > b.created_at || (a.created_at == b.created_at && a.id > b.id)
}

/// Whether proposals stand in the order of a list.
pub open spec fn in_list_order(proposals: Seq<Proposal>) -> bool {
    forall|i: int, j: int|
        0 <= i < j < proposals.len() ==> listed_before(
            #[trigger] proposals[i],
            #[trigger] proposals[j],
        )
}

/// Whether every proposal of a list is stored and asked for.
pub open spec fn listed_are_asked_for(
    stored: Map<Uuid, Proposal>,
    query: ProposalQuery,
    list: Seq<Proposal>,
) -> bool {
    forall|k: int|
        0 <= k < list.len() ==> {
            &&& stored.contains_key((#[trigger] list[k]).id)
            &&& asked_for(query, stored[list[k].id])
            &&& crate::proposals::domain::proposal_same(stored[list[k].id], list[k])
        }
}

/// Whether a list has the proposal with an identifier.
pub open spec fn lists(list: Seq<Proposal>, id: Uuid) -> bool {
    exists|k: int| 0 <= k < list.len() && (#[trigger] list[k]).id == id
}

/// Whether `list` are the stored proposals that a query asks for, in order. Where there
/// are more than the limit, they are the first ones.
pub open spec fn listing(
    stored: Map<Uuid, Proposal>,
    query: ProposalQuery,
    list: Seq<Proposal>,
) -> bool {
    &&& list.len() <= query.limit
    &&& in_list_order(list)
    &&& listed_are_asked_for(stored, query, list)
    &&& forall|id: Uuid| #[trigger]
        stored.contains_key(id) && asked_for(query, stored[id]) && !lists(list, id) ==> {
            &&& list.len() == query.limit
            &&& forall|k: int|
                0 <= k < list.len() ==> listed_before(#[trigger] list[k], stored[id])
        }
}

/// A store of proposals. An operation that fails changes nothing.
pub trait ProposalRepository {
    /// The proposals of the store.
    spec fn contents(&self) -> Map<Uuid, Proposal>;

    /// Whether the store answers: none of its operations fails for a reason of the store's
    /// own.
    spec fn answers(&self) -> bool;

    /// Stores a new proposal.
    fn insert(&mut self, proposal: Proposal) -> (result: Result<Proposal, RepositoryError>)
        requires
            keyed(old(self).contents()),
        ensures
            keyed(final(self).contents()),
            final(self).answers() == old(self).answers(),
            match result {
                Ok(stored) => {
                    &&& !old(self).contents().contains_key(proposal.id)
                    &&& stores(old(self).contents(), final(self).contents(), proposal)
                    &&& crate::proposals::domain::proposal_same(proposal, stored)
                },
                Err(error) => {
                    &&& final(self).contents() == old(self).contents()
                    &&& (error == RepositoryError::Internal && !old(self).answers()) || (error
                        == RepositoryError::Duplicate(proposal.id)
                        && old(self).contents().contains_key(proposal.id))
                },
            },
    ;

    /// The proposal with an identifier.
    fn get(&self, id: Uuid) -> (result: Result<Proposal, RepositoryError>)
        ensures
            match result {
                Ok(proposal) => self.contents().contains_key(id)
                    && crate::proposals::domain::proposal_same(self.contents()[id], proposal),
                Err(error) => (error == RepositoryError::Internal && !self.answers()) || (error
                    == RepositoryError::NotFound(id) && !self.contents().contains_key(id)),
            },
    ;

    /// The proposals that a query asks for.
    fn list(&self, query: ProposalQuery) -> (result: Result<Vec<Proposal>, RepositoryError>)
        requires
            keyed(self.contents()),
        ensures
            match result {
                Ok(proposals) => listing(self.contents(), query, proposals@),
                Err(error) => error == RepositoryError::Internal && !self.answers(),
            },
    ;

    /// Writes a proposal over the one with its identifier, if that has the expected
    /// revision.
    fn replace(&mut self, proposal: Proposal, expected_revision: u64) -> (result: Result<
        Proposal,
        RepositoryError,
    >)
        requires
            keyed(old(self).contents()),
        ensures
            keyed(final(self).contents()),
            final(self).answers() == old(self).answers(),
            match result {
                Ok(stored) => {
                    &&& revision_refusal(
                        old(self).contents(),
                        proposal.id,
                        expected_revision,
                    ) is None
                    &&& stores(old(self).contents(), final(self).contents(), proposal)
                    &&& crate::proposals::domain::proposal_same(proposal, stored)
                },
                Err(error) => {
                    &&& final(self).contents() == old(self).contents()
                    &&& (error == RepositoryError::Internal && !old(self).answers()) || revision_refusal(
                        old(self).contents(),
                        proposal.id,
                        expected_revision,
                    ) == Some(error)
                },
            },
    ;

    /// Deletes the proposal with an identifier, if it has the expected revision.
    fn delete(&mut self, id: Uuid, expected_revision: u64) -> (result: Result<(), RepositoryError>)
        requires
            keyed(old(self).contents()),
        ensures
            keyed(final(self).contents()),
            final(self).answers() == old(self).answers(),
            match result {
                Ok(_) => {
                    &&& revision_refusal(old(self).contents(), id, expected_revision) is None
                    &&& final(self).contents() == old(self).contents().remove(id)
                },
                Err(error) => {
                    &&& final(self).contents() == old(self).contents()
                    &&& (error == RepositoryError::Internal && !old(self).answers()) || revision_refusal(
                        old(self).contents(),
                        id,
                        expected_revision,
                    ) == Some(error)
                },
            },
    ;
}

/// A store of proposals in memory.
#[derive(Debug)]
pub struct InMemoryProposalRepository {
    proposals: BTreeMap<Uuid, Proposal>,
}

impl Default for InMemoryProposalRepository {
    fn default() -> (result: Self)
        ensures
            result.contents() == Map::<Uuid, Proposal>::empty(),
            keyed(result.contents()),
    {
        InMemoryProposalRepository { proposals: BTreeMap::new() }
    }
}

fn precedes(a: &Proposal, b: &Proposal) -> (result: bool)
    ensures
        result == listed_before(*a, *b),
{
    a.created_at > b.created_at || (a.created_at == b.created_at && a.id > b.id)
}

fn is_asked_for(query: &ProposalQuery, proposal: &Proposal) -> (result: bool)
    ensures
        result == asked_for(*query, *proposal),
{
    let status: bool = match query.status {
        Some(status) => proposal.status == status,
        None => true,
    };
    let source: bool = match query.source {
        Some(source) => proposal.source == source,
        None => true,
    };
    status && source
}

/// Puts a proposal into its place of a list.
fn insert_in_order(list: &mut Vec<Proposal>, proposal: Proposal)
    requires
        in_list_order(old(list)@),
        !lists(old(list)@, proposal.id),
    ensures
        in_list_order(final(list)@),
        exists|place: int|
            0 <= place <= old(list)@.len() && final(list)@ == #[trigger] old(list)@.insert(
                place,
                proposal,
            ),
{
    let mut place: usize = 0;
    while place < list.len() && precedes(&list[place], &proposal)
        invariant
            place <= list@.len(),
            list@ == old(list)@,
            forall|k: int| 0 <= k < place ==> listed_before(#[trigger] list@[k], proposal),
        decreases list.len() - place,
    {
        place = place + 1;
    }
    let ghost before = list@;
    let ghost added = proposal;
    list.insert(place, proposal);
    proof {
        assert(list@ == before.insert(place as int, added));
        assert forall|i: int, j: int| 0 <= i < j < list@.len() implies listed_before(
            #[trigger] list@[i],
            #[trigger] list@[j],
        ) by {
            let old_i = if i < place { i } else { i - 1 };
            let old_j = if j < place { j } else { j - 1 };
            if i != place {
                assert(list@[i] == before[old_i]);
            }
            if j != place {
                assert(list@[j] == before[old_j]);
            }
            if i == place {
                assert(before[old_j].id != added.id);
                assert(before[place as int].id != added.id);
                if old_j > place {
                    assert(listed_before(before[place as int], before[old_j]));
                }
            }
        }
    }
}

impl InMemoryProposalRepository {
    /// The proposals that a query asks for, in order, however many there are.
    fn matching(&self, query: &ProposalQuery) -> (result: Vec<Proposal>)
        requires
            keyed(self.proposals@),
        ensures
            in_list_order(result@),
            listed_are_asked_for(self.proposals@, *query, result@),
            forall|id: Uuid| #[trigger]
                self.proposals@.contains_key(id) && asked_for(*query, self.proposals@[id])
                    ==> lists(result@, id),
    {
        let mut list: Vec<Proposal> = Vec::new();
        for entry in it: self.proposals.iter()
            invariant
                keyed(self.proposals@),
                it.seq() == vstd::std_specs::iter::IteratorSpec::remaining(
                    &vstd::std_specs::btree::spec_btree_map_iter(&self.proposals),
                ),
                it.seq().no_duplicates(),
                in_list_order(list@),
                listed_are_asked_for(self.proposals@, *query, list@),
                forall|k: int|
                    0 <= k < it.index() && asked_for(*query, *(#[trigger] it.seq()[k]).1) ==> lists(
                        list@,
                        *it.seq()[k].0,
                    ),
                forall|k: int|
                    it.index() <= k < it.seq().len() ==> !lists(list@, *(#[trigger] it.seq()[k]).0),
        {
            let ghost index = it.index();
            let ghost entries = it.seq();
            proof {
                assert(entries[index] == entry);
                assert(self.proposals@.contains_key(*entry.0));
                assert(self.proposals@[*entry.0] == *entry.1);
            }
            if is_asked_for(query, entry.1) {
                let ghost before = list@;
                let copy: Proposal = entry.1.clone();
                let ghost added = copy;
                assert(copy.id == *entry.0);
                insert_in_order(&mut list, copy);
                proof {
                    let place = choose|place: int|
                        0 <= place <= before.len() && list@ == #[trigger] before.insert(
                            place,
                            added,
                        );
                    assert(list@[place] == added);
                    assert forall|k: int| 0 <= k < list@.len() implies {
                        &&& self.proposals@.contains_key((#[trigger] list@[k]).id)
                        &&& asked_for(*query, self.proposals@[list@[k].id])
                        &&& crate::proposals::domain::proposal_same(
                            self.proposals@[list@[k].id],
                            list@[k],
                        )
                    } by {
                        if k != place {
                            let old_k = if k < place { k } else { k - 1 };
                            assert(list@[k] == before[old_k]);
                        }
                    }
                    assert forall|k: int|
                        0 <= k < index + 1 && asked_for(
                            *query,
                            *(#[trigger] entries[k]).1,
                        ) implies lists(list@, *entries[k].0) by {
                        if k < index {
                            let j = choose|j: int|
                                0 <= j < before.len() && (#[trigger] before[j]).id
                                    == *entries[k].0;
                            let new_j = if j < place { j } else { j + 1 };
                            assert(list@[new_j] == before[j]);
                        } else {
                            assert(list@[place].id == *entries[k].0);
                        }
                    }
                    assert forall|k: int| index + 1 <= k < entries.len() implies !lists(
                        list@,
                        *(#[trigger] entries[k]).0,
                    ) by {
                        assert(self.proposals@[*entries[k].0] == *entries[k].1);
                        assert(entries[k] != entries[index]);
                        if lists(list@, *entries[k].0) {
                            let j = choose|j: int|
                                0 <= j < list@.len() && (#[trigger] list@[j]).id == *entries[k].0;
                            assert(j != place);
                            let old_j = if j < place { j } else { j - 1 };
                            assert(list@[j] == before[old_j]);
                            assert(lists(before, *entries[k].0));
                        }
                    }
                }
            }
        }
        proof {
            let entries = vstd::std_specs::iter::IteratorSpec::remaining(
                &vstd::std_specs::btree::spec_btree_map_iter(&self.proposals),
            );
            assert forall|id: Uuid| #[trigger]
                self.proposals@.contains_key(id) && asked_for(
                    *query,
                    self.proposals@[id],
                ) implies lists(list@, id) by {
                assert(entries.contains((&id, &self.proposals@[id])));
                let k = choose|k: int|
                    0 <= k < entries.len() && entries[k] == (&id, &self.proposals@[id]);
                assert(asked_for(*query, *entries[k].1));
            }
        }
        list
    }
}

impl ProposalRepository for InMemoryProposalRepository {
    closed spec fn contents(&self) -> Map<Uuid, Proposal> {
        self.proposals@
    }

    open spec fn answers(&self) -> bool {
        true
    }

    fn insert(&mut self, proposal: Proposal) -> (result: Result<Proposal, RepositoryError>)
        ensures
            result is Ok <==> !old(self).contents().contains_key(proposal.id),
    {
        if self.proposals.contains_key(&proposal.id) {
            return Err(RepositoryError::Duplicate(proposal.id));
        }
        let copy: Proposal = proposal.clone();
        proof {
            crate::proposals::domain::proposal_same_reflexive(proposal);
        }
        self.proposals.insert(copy.id, copy);
        Ok(proposal)
    }

    fn get(&self, id: Uuid) -> (result: Result<Proposal, RepositoryError>)
        ensures
            result is Ok <==> self.contents().contains_key(id),
            result is Err ==> result->Err_0 == RepositoryError::NotFound(id),
    {
        match self.proposals.get(&id) {
            Some(proposal) => Ok(proposal.clone()),
            None => Err(RepositoryError::NotFound(id)),
        }
    }

    fn list(&self, query: ProposalQuery) -> (result: Result<Vec<Proposal>, RepositoryError>)
        ensures
            result is Ok,
    {
        let mut list: Vec<Proposal> = self.matching(&query);
        let ghost whole = list@;
        list.truncate(query.limit);
        proof {
            assert(list@ =~= if query.limit <= whole.len() {
                whole.take(query.limit as int)
            } else {
                whole
            });
            assert forall|id: Uuid| #[trigger]
                self.proposals@.contains_key(id) && asked_for(query, self.proposals@[id]) && !lists(
                    list@,
                    id,
                ) implies {
                &&& list@.len() == query.limit
                &&& forall|k: int|
                    0 <= k < list@.len() ==> listed_before(
                        #[trigger] list@[k],
                        self.proposals@[id],
                    )
            } by {
                let j = choose|j: int| 0 <= j < whole.len() && (#[trigger] whole[j]).id == id;
                if j < list@.len() {
                    assert(list@[j] == whole[j]);
                }
                assert forall|k: int| 0 <= k < list@.len() implies listed_before(
                    #[trigger] list@[k],
                    self.proposals@[id],
                ) by {
                    assert(list@[k] == whole[k]);
                    assert(listed_before(whole[k], whole[j]));
                    assert(whole[j].created_at == self.proposals@[id].created_at);
                }
            }
            assert forall|k: int| 0 <= k < list@.len() implies {
                &&& self.proposals@.contains_key((#[trigger] list@[k]).id)
                &&& asked_for(query, self.proposals@[list@[k].id])
                &&& crate::proposals::domain::proposal_same(
                    self.proposals@[list@[k].id],
                    list@[k],
                )
            } by {
                assert(list@[k] == whole[k]);
            }
        }
        Ok(list)
    }

    fn replace(&mut self, proposal: Proposal, expected_revision: u64) -> (result: Result<
        Proposal,
        RepositoryError,
    >)
        ensures
            result is Ok <==> revision_refusal(
                old(self).contents(),
                proposal.id,
                expected_revision,
            ) is None,
            result is Err ==> Some(result->Err_0) == revision_refusal(
                old(self).contents(),
                proposal.id,
                expected_revision,
            ),
    {
        let actual: u64 = match self.proposals.get(&proposal.id) {
            Some(current) => current.revision,
            None => {
                return Err(RepositoryError::NotFound(proposal.id));
            },
        };
        if actual != expected_revision {
            return Err(
                RepositoryError::RevisionConflict { expected: expected_revision, actual },
            );
        }
        let copy: Proposal = proposal.clone();
        proof {
            crate::proposals::domain::proposal_same_reflexive(proposal);
        }
        self.proposals.insert(copy.id, copy);
        assert(self.proposals@.dom() =~= old(self).proposals@.dom().insert(proposal.id));
        Ok(proposal)
    }

    fn delete(&mut self, id: Uuid, expected_revision: u64) -> (result: Result<(), RepositoryError>)
        ensures
            result is Ok <==> revision_refusal(
                old(self).contents(),
                id,
                expected_revision,
            ) is None,
            result is Err ==> Some(result->Err_0) == revision_refusal(
                old(self).contents(),
                id,
                expected_revision,
            ),
    {
        let actual: u64 = match self.proposals.get(&id) {
            Some(current) => current.revision,
            None => {
                return Err(RepositoryError::NotFound(id));
            },
        };
        if actual != expected_revision {
            return Err(
                RepositoryError::RevisionConflict { expected: expected_revision, actual },
            );
        }
        self.proposals.remove(&id);
        Ok(())
    }
}

} // verus!
