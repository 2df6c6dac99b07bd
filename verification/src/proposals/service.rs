//! The life of proposals: they are made, changed, decided and deleted, and they expire
//! when their time is up.
use vstd::prelude::*;

use crate::outside::current_instant;
use crate::proposals::domain::{
    DecisionKind, EditProposal, NewProposal, Proposal, ProposalDomainError, ProposalStatus,
};
use crate::proposals::repository::{ProposalQuery, ProposalRepository, RepositoryError};
use crate::time::{Instant, Uuid};

verus! {

/// A source of the present instant.
pub trait Clock {
    /// Whether the clock can show this instant.
    spec fn shows(&self, now: Instant) -> bool;

    /// The present instant. It is on the calendar of the service.
    fn now(&self) -> (result: Instant)
        ensures
            self.shows(result),
            crate::time::in_time_range(result),
    ;
}

/// The clock of the machine.
#[derive(Clone, Copy, Debug)]
pub struct SystemClock;

impl Clock for SystemClock {
    open spec fn shows(&self, now: Instant) -> bool {
        crate::time::in_time_range(now)
    }

    fn now(&self) -> (result: Instant) {
        current_instant()
    }
}

/// Why an operation on proposals is refused.
#[derive(Clone, Copy, Debug)]
pub enum ProposalServiceError {
    Domain(ProposalDomainError),
    Repository(RepositoryError),
}

/// Whether a proposal has the revision that a request was made for.
pub fn ensure_revision(proposal: &Proposal, expected_revision: u64) -> (result: Result<
    (),
    ProposalServiceError,
>)
    ensures
        result == (if proposal.revision == expected_revision {
            Ok::<(), ProposalServiceError>(())
        } else {
            Err(
                ProposalServiceError::Repository(
                    RepositoryError::RevisionConflict {
                        expected: expected_revision,
                        actual: proposal.revision,
                    },
                ),
            )
        }),
{
    if proposal.revision == expected_revision {
        Ok(())
    } else {
        Err(
            ProposalServiceError::Repository(
                RepositoryError::RevisionConflict {
                    expected: expected_revision,
                    actual: proposal.revision,
                },
            ),
        )
    }
}

/// What is to be done with a proposal that was read.
#[derive(Debug)]
pub enum ExpirationStep {
    /// It is handed on as it is.
    Current(Proposal),
    /// It has expired: it is written over the stored one of this revision.
    Expired { proposal: Proposal, expected_revision: u64 },
}

/// What is to be done with a proposal that was read at `now`.
pub fn expiration_step(proposal: Proposal, now: Instant) -> (result: ExpirationStep)
    requires
        crate::proposals::domain::due(proposal, now) ==> proposal.revision < u64::MAX,
    ensures
        result == (if crate::proposals::domain::due(proposal, now) {
            ExpirationStep::Expired {
                proposal: crate::proposals::domain::normalized(proposal, now),
                expected_revision: proposal.revision,
            }
        } else {
            ExpirationStep::Current(proposal)
        }),
{
    let expected_revision: u64 = proposal.revision;
    let mut settled: Proposal = proposal;
    if settled.expire_if_due(now) {
        ExpirationStep::Expired { proposal: settled, expected_revision }
    } else {
        ExpirationStep::Current(settled)
    }
}

/// Whether a proposal that was to expire is read again: it is, if someone else has
/// changed it meanwhile.
pub fn reads_again(error: &RepositoryError) -> (result: bool)
    ensures
        result == (*error is RevisionConflict),
{
    match error {
        RepositoryError::RevisionConflict { .. } => true,
        _ => false,
    }
}

/// Why a proposal is not changed, or `None` if it is.
pub open spec fn edit_refusal(
    proposal: Proposal,
    expected_revision: u64,
    edit: EditProposal,
    now: Instant,
) -> Option<ProposalServiceError> {
    let present = crate::proposals::domain::normalized(proposal, now);
    if proposal.revision != expected_revision {
        Some(
            ProposalServiceError::Repository(
                RepositoryError::RevisionConflict {
                    expected: expected_revision,
                    actual: proposal.revision,
                },
            ),
        )
    } else if present.status != ProposalStatus::Pending {
        Some(ProposalServiceError::Domain(ProposalDomainError::NotPending(present.status)))
    } else {
        match crate::proposals::domain::edit_error(edit, now) {
            Some(error) => Some(ProposalServiceError::Domain(error)),
            None => None,
        }
    }
}

/// Whether the revision of a proposal can be counted on where a change counts it on: the
/// change is made, or the proposal is the one that was meant and expires.
pub open spec fn edit_fits(
    proposal: Proposal,
    expected_revision: u64,
    edit: EditProposal,
    now: Instant,
) -> bool {
    edit_refusal(proposal, expected_revision, edit, now) is None || (proposal.revision
        == expected_revision && crate::proposals::domain::due(proposal, now)) ==> proposal.revision
        < u64::MAX
}

/// The proposal with a change made, if it has the revision that the change was made for.
pub fn edited_proposal(
    proposal: Proposal,
    expected_revision: u64,
    edit: EditProposal,
    now: Instant,
) -> (result: Result<Proposal, ProposalServiceError>)
    requires
        edit_fits(proposal, expected_revision, edit, now),
    ensures
        match result {
            Ok(changed) => edit_refusal(proposal, expected_revision, edit, now) is None && changed
                == crate::proposals::domain::edited(proposal, edit, now),
            Err(error) => edit_refusal(proposal, expected_revision, edit, now) == Some(error),
        },
{
    ensure_revision(&proposal, expected_revision)?;
    let mut changed: Proposal = proposal;
    match changed.edit(edit, now) {
        Ok(_) => Ok(changed),
        Err(error) => Err(ProposalServiceError::Domain(error)),
    }
}

/// Why a proposal is not decided, or `None` if it is.
pub open spec fn decision_refusal(
    proposal: Proposal,
    expected_revision: u64,
    note: Option<String>,
    now: Instant,
) -> Option<ProposalServiceError> {
    let present = crate::proposals::domain::normalized(proposal, now);
    if proposal.revision != expected_revision {
        Some(
            ProposalServiceError::Repository(
                RepositoryError::RevisionConflict {
                    expected: expected_revision,
                    actual: proposal.revision,
                },
            ),
        )
    } else if present.status != ProposalStatus::Pending {
        Some(ProposalServiceError::Domain(ProposalDomainError::NotPending(present.status)))
    } else {
        match crate::proposals::domain::optional_text_error(
            "decision_note",
            note,
            crate::proposals::domain::MAX_DECISION_NOTE_LENGTH,
        ) {
            Some(error) => Some(ProposalServiceError::Domain(error)),
            None => None,
        }
    }
}

/// Whether the revision of a proposal can be counted on where a decision counts it on: the
/// decision is made, or the proposal is the one that was meant and expires.
pub open spec fn decision_fits(
    proposal: Proposal,
    expected_revision: u64,
    note: Option<String>,
    now: Instant,
) -> bool {
    decision_refusal(proposal, expected_revision, note, now) is None || (proposal.revision
        == expected_revision && crate::proposals::domain::due(proposal, now)) ==> proposal.revision
        < u64::MAX
}

/// The proposal with a decision made, if it has the revision that the decision was made
/// for.
pub fn decided_proposal(
    proposal: Proposal,
    expected_revision: u64,
    decision: DecisionKind,
    note: Option<String>,
    now: Instant,
) -> (result: Result<Proposal, ProposalServiceError>)
    requires
        decision_fits(proposal, expected_revision, note, now),
    ensures
        match result {
            Ok(changed) => decision_refusal(proposal, expected_revision, note, now) is None
                && changed == crate::proposals::domain::decided(proposal, decision, note, now),
            Err(error) => decision_refusal(proposal, expected_revision, note, now) == Some(error),
        },
{
    ensure_revision(&proposal, expected_revision)?;
    let mut changed: Proposal = proposal;
    match changed.decide(decision, note, now) {
        Ok(_) => Ok(changed),
        Err(error) => Err(ProposalServiceError::Domain(error)),
    }
}

/// The query behind a list: every proposal of the source, because proposals that are due
/// expire before the status is looked at.
pub fn candidate_query(query: &ProposalQuery) -> (result: ProposalQuery)
    ensures
        result == (ProposalQuery { status: None, source: query.source, limit: usize::MAX }),
{
    ProposalQuery { status: None, source: query.source, limit: usize::MAX }
}

/// Whether a list asks for proposals of this status.
pub open spec fn status_asked_for(query: ProposalQuery, proposal: Proposal) -> bool {
    query.status is Some ==> proposal.status == query.status->0
}

/// The proposals of a list: those of the status that is asked for, up to the limit.
pub open spec fn selected(query: ProposalQuery, proposals: Seq<Proposal>) -> Seq<Proposal> {
    let wanted = proposals.filter(|proposal: Proposal| status_asked_for(query, proposal));
    if wanted.len() <= query.limit {
        wanted
    } else {
        wanted.take(query.limit as int)
    }
}

/// The proposals of a list, from those of the source after the due ones have expired.
pub fn select_listed(query: &ProposalQuery, proposals: Vec<Proposal>) -> (result: Vec<Proposal>)
    ensures
        result@ == selected(*query, proposals@),
{
    let ghost all = proposals@;
    let ghost keep = |proposal: Proposal| status_asked_for(*query, proposal);
    let count: usize = proposals.len();
    let mut remaining: Vec<Proposal> = proposals;
    let mut list: Vec<Proposal> = Vec::new();
    let mut i: usize = 0;
    proof {
        crate::sequences::lemma_filter_empty(all.take(0), keep);
    }
    while i < count
        invariant
            i <= count,
            count == all.len(),
            proposals@ == all,
            keep == (|proposal: Proposal| status_asked_for(*query, proposal)),
            remaining@ == all.skip(i as int),
            list@ == all.take(i as int).filter(keep),
        decreases count - i,
    {
        proof {
            crate::sequences::lemma_filter_step(all, i as int, keep);
        }
        let proposal: Proposal = remaining.remove(0);
        assert(proposal == all[i as int]);
        assert(remaining@ =~= all.skip(i + 1));
        let wanted: bool = match query.status {
            Some(status) => proposal.status == status,
            None => true,
        };
        if wanted {
            list.push(proposal);
        }
        i = i + 1;
    }
    assert(all.take(i as int) =~= all);
    let ghost wanted = list@;
    list.truncate(query.limit);
    proof {
        if wanted.len() <= query.limit {
            assert(list@ =~= wanted);
        } else {
            assert(list@ =~= wanted.take(query.limit as int));
        }
    }
    list
}

/// The store after the proposal with an identifier was read at `now`: if it was due, it
/// has expired.
pub open spec fn settles(
    before: Map<Uuid, Proposal>,
    after: Map<Uuid, Proposal>,
    id: Uuid,
    now: Instant,
) -> bool {
    if before.contains_key(id) && crate::proposals::domain::due(before[id], now) {
        crate::proposals::repository::stores(
            before,
            after,
            crate::proposals::domain::normalized(before[id], now),
        )
    } else {
        after == before
    }
}

/// Whether the revision of the proposal with an identifier can be counted on where reading it
/// at `now` counts it on: it is due.
pub open spec fn expiry_fits(stored: Map<Uuid, Proposal>, id: Uuid, now: Instant) -> bool {
    stored.contains_key(id) && crate::proposals::domain::due(stored[id], now)
        ==> stored[id].revision < u64::MAX
}

/// Proposals over a store and a clock.
#[derive(Debug)]
pub struct ProposalService<R: ProposalRepository, C: Clock> {
    pub repository: R,
    pub clock: C,
    pub default_ttl: i128,
}

impl<R: ProposalRepository, C: Clock> ProposalService<R, C> {
    /// Proposals over a store and a clock, with the time that a proposal has by default.
    pub fn new(repository: R, clock: C, default_ttl: i128) -> (result: Self)
        requires
            crate::time::in_time_range(default_ttl),
        ensures
            result.repository == repository,
            result.clock == clock,
            result.default_ttl == default_ttl,
    {
        ProposalService { repository, clock, default_ttl }
    }

    /// When a proposal expires by default that is made at `now`.
    pub fn default_expiration_at(&self, now: Instant) -> (result: Instant)
        requires
            crate::time::in_time_range(self.default_ttl),
            crate::time::in_time_range(now),
        ensures
            result == now + self.default_ttl,
    {
        now + self.default_ttl
    }

    /// When a proposal expires by default that is made now.
    pub fn default_expiration(&self) -> (result: Instant)
        requires
            crate::time::in_time_range(self.default_ttl),
        ensures
            exists|now: Instant|
                #[trigger] crate::time::in_time_range(now) && self.clock.shows(now) && result == now
                    + self.default_ttl,
    {
        let now: Instant = self.clock.now();
        self.default_expiration_at(now)
    }

    /// Makes and stores a proposal at `now`.
    pub fn create_at(&mut self, input: NewProposal, now: Instant) -> (result: Result<
        Proposal,
        ProposalServiceError,
    >)
        requires
            crate::proposals::repository::keyed(old(self).repository.contents()),
        ensures
            crate::proposals::repository::keyed(final(self).repository.contents()),
            final(self).clock == old(self).clock,
            final(self).default_ttl == old(self).default_ttl,
            final(self).repository.answers() == old(self).repository.answers(),
            match result {
                Ok(proposal) => {
                    &&& crate::proposals::domain::creation_error(input, now) is None
                    &&& !old(self).repository.contents().contains_key(proposal.id)
                    &&& crate::proposals::domain::proposal_same(
                        crate::proposals::domain::created(proposal.id, input, now),
                        proposal,
                    )
                    &&& crate::proposals::repository::stores(
                        old(self).repository.contents(),
                        final(self).repository.contents(),
                        crate::proposals::domain::created(proposal.id, input, now),
                    )
                },
                Err(error) => {
                    &&& final(self).repository.contents() == old(self).repository.contents()
                    &&& match crate::proposals::domain::creation_error(input, now) {
                        Some(reason) => error == ProposalServiceError::Domain(reason),
                        None => {
                            ||| error == ProposalServiceError::Repository(RepositoryError::Internal)
                                && !old(self).repository.answers()
                            ||| exists|id: Uuid| #[trigger]
                                old(self).repository.contents().contains_key(id) && error
                                    == ProposalServiceError::Repository(
                                    RepositoryError::Duplicate(id),
                                )
                        },
                    }
                },
            },
    {
        let proposal: Proposal = match Proposal::new(input, now) {
            Ok(proposal) => proposal,
            Err(error) => {
                return Err(ProposalServiceError::Domain(error));
            },
        };
        match self.repository.insert(proposal) {
            Ok(stored) => Ok(stored),
            Err(error) => Err(ProposalServiceError::Repository(error)),
        }
    }

    /// Makes and stores a proposal.
    pub fn create(&mut self, input: NewProposal) -> (result: Result<
        Proposal,
        ProposalServiceError,
    >)
        requires
            crate::proposals::repository::keyed(old(self).repository.contents()),
        ensures
            crate::proposals::repository::keyed(final(self).repository.contents()),
            final(self).clock == old(self).clock,
            final(self).default_ttl == old(self).default_ttl,
            final(self).repository.answers() == old(self).repository.answers(),
            exists|now: Instant|
                #[trigger] crate::time::in_time_range(now) && old(self).clock.shows(now) && match result {
                    Ok(proposal) => {
                        &&& crate::proposals::domain::creation_error(input, now) is None
                        &&& !old(self).repository.contents().contains_key(proposal.id)
                        &&& crate::proposals::domain::proposal_same(
                            crate::proposals::domain::created(proposal.id, input, now),
                            proposal,
                        )
                        &&& crate::proposals::repository::stores(
                            old(self).repository.contents(),
                            final(self).repository.contents(),
                            crate::proposals::domain::created(proposal.id, input, now),
                        )
                    },
                    Err(error) => {
                        &&& final(self).repository.contents() == old(self).repository.contents()
                        &&& match crate::proposals::domain::creation_error(input, now) {
                            Some(reason) => error == ProposalServiceError::Domain(reason),
                            None => {
                                ||| error == ProposalServiceError::Repository(
                                    RepositoryError::Internal,
                                ) && !old(self).repository.answers()
                                ||| exists|id: Uuid| #[trigger]
                                    old(self).repository.contents().contains_key(id) && error
                                        == ProposalServiceError::Repository(
                                        RepositoryError::Duplicate(id),
                                    )
                            },
                        }
                    },
                },
    {
        let now: Instant = self.clock.now();
        self.create_at(input, now)
    }

    /// The proposal with an identifier as it is at `now`: one that is due expires first,
    /// in the store too.
    pub fn get_at(&mut self, id: Uuid, now: Instant) -> (result: Result<
        Proposal,
        ProposalServiceError,
    >)
        requires
            crate::proposals::repository::keyed(old(self).repository.contents()),
            expiry_fits(old(self).repository.contents(), id, now),
        ensures
            crate::proposals::repository::keyed(final(self).repository.contents()),
            final(self).clock == old(self).clock,
            final(self).default_ttl == old(self).default_ttl,
            final(self).repository.answers() == old(self).repository.answers(),
            match result {
                Ok(proposal) => {
                    let before = old(self).repository.contents();
                    &&& before.contains_key(id)
                    &&& crate::proposals::domain::proposal_same(
                        crate::proposals::domain::normalized(before[id], now),
                        proposal,
                    )
                    &&& settles(before, final(self).repository.contents(), id, now)
                },
                Err(error) => {
                    &&& final(self).repository.contents() == old(self).repository.contents()
                    &&& {
                        ||| error == ProposalServiceError::Repository(RepositoryError::Internal)
                            && !old(self).repository.answers()
                        ||| error == ProposalServiceError::Repository(RepositoryError::NotFound(id))
                            && !old(self).repository.contents().contains_key(id)
                    }
                },
            },
    {
        let ghost before = self.repository.contents();
        let proposal: Proposal = match self.repository.get(id) {
            Ok(proposal) => proposal,
            Err(error) => {
                return Err(ProposalServiceError::Repository(error));
            },
        };
        let ghost read = proposal;
        match expiration_step(proposal, now) {
            ExpirationStep::Current(current) => Ok(current),
            ExpirationStep::Expired { proposal, expected_revision } => {
                let ghost expired = proposal;
                match self.repository.replace(proposal, expected_revision) {
                    Ok(stored) => {
                        proof {
                            let wanted = crate::proposals::domain::normalized(before[id], now);
                            assert(crate::proposals::domain::proposal_same(wanted, expired));
                            crate::proposals::domain::proposal_same_transitive(
                                wanted,
                                expired,
                                stored,
                            );
                            crate::proposals::domain::proposal_same_transitive(
                                wanted,
                                expired,
                                self.repository.contents()[id],
                            );
                        }
                        Ok(stored)
                    },
                    Err(error) => {
                        if reads_again(&error) {
                            match self.repository.get(id) {
                                Ok(again) => Ok(again),
                                Err(error) => Err(ProposalServiceError::Repository(error)),
                            }
                        } else {
                            Err(ProposalServiceError::Repository(error))
                        }
                    },
                }
            },
        }
    }

    /// The proposal with an identifier as it is now.
    pub fn get(&mut self, id: Uuid) -> (result: Result<Proposal, ProposalServiceError>)
        requires
            crate::proposals::repository::keyed(old(self).repository.contents()),
            forall|now: Instant| #[trigger]
                old(self).clock.shows(now) ==> expiry_fits(old(self).repository.contents(), id, now),
        ensures
            crate::proposals::repository::keyed(final(self).repository.contents()),
            final(self).clock == old(self).clock,
            final(self).default_ttl == old(self).default_ttl,
            final(self).repository.answers() == old(self).repository.answers(),
            match result {
                Ok(proposal) => old(self).repository.contents().contains_key(id) && exists|
                    now: Instant,
                |
                    #[trigger] crate::time::in_time_range(now) && old(self).clock.shows(now)
                        && crate::proposals::domain::proposal_same(
                        crate::proposals::domain::normalized(
                            old(self).repository.contents()[id],
                            now,
                        ),
                        proposal,
                    ) && settles(
                        old(self).repository.contents(),
                        final(self).repository.contents(),
                        id,
                        now,
                    ),
                Err(error) => {
                    &&& final(self).repository.contents() == old(self).repository.contents()
                    &&& {
                        ||| error == ProposalServiceError::Repository(RepositoryError::Internal)
                            && !old(self).repository.answers()
                        ||| error == ProposalServiceError::Repository(RepositoryError::NotFound(id))
                            && !old(self).repository.contents().contains_key(id)
                    }
                },
            },
    {
        let now: Instant = self.clock.now();
        self.get_at(id, now)
    }
}

/// What is made of a proposal depends on what agrees in equal proposals: equal ones
/// expire, change and are decided alike.
proof fn lemma_same_proposals(
    a: Proposal,
    b: Proposal,
    edit: EditProposal,
    decision: DecisionKind,
    note: Option<String>,
    now: Instant,
)
    requires
        crate::proposals::domain::proposal_same(a, b),
    ensures
        crate::proposals::domain::due(a, now) == crate::proposals::domain::due(b, now),
        crate::proposals::domain::proposal_same(
            crate::proposals::domain::normalized(a, now),
            crate::proposals::domain::normalized(b, now),
        ),
        crate::proposals::domain::proposal_same(
            crate::proposals::domain::edited(a, edit, now),
            crate::proposals::domain::edited(b, edit, now),
        ),
        crate::proposals::domain::proposal_same(
            crate::proposals::domain::decided(a, decision, note, now),
            crate::proposals::domain::decided(b, decision, note, now),
        ),
{
    match edit.payload {
        Some(payload) => {
            crate::json::json_same_reflexive(payload);
        },
        None => {},
    }
}

proof fn lemma_stores_same(
    before: Map<Uuid, Proposal>,
    after: Map<Uuid, Proposal>,
    wanted: Proposal,
    written: Proposal,
)
    requires
        crate::proposals::domain::proposal_same(wanted, written),
        crate::proposals::repository::stores(before, after, written),
    ensures
        crate::proposals::repository::stores(before, after, wanted),
{
    crate::proposals::domain::proposal_same_transitive(wanted, written, after[written.id]);
}

/// Whether a change of the proposal with an identifier ended with an error as it should:
/// the proposal is missing, the change is refused, or the store failed, which it does not
/// where it answers. A proposal that was due when it was read has expired, unless the store
/// failed.
pub open spec fn fails(
    before: Map<Uuid, Proposal>,
    after: Map<Uuid, Proposal>,
    id: Uuid,
    seen: Instant,
    refusal: Option<ProposalServiceError>,
    answers: bool,
    error: ProposalServiceError,
) -> bool {
    if !before.contains_key(id) {
        &&& after == before
        &&& {
            ||| error == ProposalServiceError::Repository(RepositoryError::NotFound(id))
            ||| error == ProposalServiceError::Repository(RepositoryError::Internal) && !answers
        }
    } else {
        ||| refusal == Some(error) && settles(before, after, id, seen)
        ||| error == ProposalServiceError::Repository(RepositoryError::Internal) && !answers && (
        after == before || settles(before, after, id, seen))
    }
}

/// Whether a store after reading proposals agrees with the one before, but for the
/// proposals that were due: the first `count` of those that were read have expired.
pub open spec fn list_settles(
    before: Map<Uuid, Proposal>,
    after: Map<Uuid, Proposal>,
    read: Seq<Proposal>,
    instants: Seq<Instant>,
    count: int,
) -> bool {
    &&& after.dom() == before.dom()
    &&& forall|k: int|
        0 <= k < count ==> if crate::proposals::domain::due(
            before[(#[trigger] read[k]).id],
            instants[k],
        ) {
            crate::proposals::domain::proposal_same(
                crate::proposals::domain::normalized(before[read[k].id], instants[k]),
                after[read[k].id],
            )
        } else {
            after[read[k].id] == before[read[k].id]
        }
    &&& forall|id: Uuid| #[trigger]
        before.contains_key(id) && !crate::proposals::repository::lists(read.take(count), id)
            ==> after[id] == before[id]
}

/// Whether the revisions of proposals that are read, each at its instant, can be counted on
/// where they are due.
pub open spec fn reads_fit(read: Seq<Proposal>, instants: Seq<Instant>) -> bool {
    forall|k: int|
        0 <= k < read.len() && crate::proposals::domain::due(#[trigger] read[k], instants[k])
            ==> read[k].revision < u64::MAX
}

/// Whether a list asks for proposals of this source.
pub open spec fn source_asked_for(query: ProposalQuery, proposal: Proposal) -> bool {
    query.source is Some ==> proposal.source == query.source->0
}

/// Whether the revisions of the proposals behind a list, each read at its instant, can be
/// counted on where they are due.
pub open spec fn list_fits(
    stored: Map<Uuid, Proposal>,
    query: ProposalQuery,
    instants: Seq<Instant>,
) -> bool {
    forall|read: Seq<Proposal>| #[trigger]
        crate::proposals::repository::listing(
            stored,
            ProposalQuery { status: None, source: query.source, limit: usize::MAX },
            read,
        ) ==> reads_fit(read, instants)
}

/// Whether `list` are the proposals that were read, each as it is at its instant.
pub open spec fn settled_list(
    read: Seq<Proposal>,
    instants: Seq<Instant>,
    list: Seq<Proposal>,
    count: int,
) -> bool {
    &&& list.len() == count
    &&& forall|k: int|
        0 <= k < count ==> crate::proposals::domain::proposal_same(
            crate::proposals::domain::normalized(read[k], instants[k]),
            #[trigger] list[k],
        )
}

impl<R: ProposalRepository, C: Clock> ProposalService<R, C> {
    /// Changes a proposal that was read at `seen`, when the store held `before`.
    fn edit_read(
        &mut self,
        proposal: Proposal,
        expected_revision: u64,
        edit: EditProposal,
        now: Instant,
        Ghost(before): Ghost<Map<Uuid, Proposal>>,
        Ghost(seen): Ghost<Instant>,
    ) -> (result: Result<Proposal, ProposalServiceError>)
        requires
            crate::proposals::repository::keyed(before),
            crate::proposals::repository::keyed(old(self).repository.contents()),
            before.contains_key(proposal.id),
            edit_fits(
                crate::proposals::domain::normalized(before[proposal.id], seen),
                expected_revision,
                edit,
                now,
            ),
            crate::proposals::domain::proposal_same(
                crate::proposals::domain::normalized(before[proposal.id], seen),
                proposal,
            ),
            settles(before, old(self).repository.contents(), proposal.id, seen),
        ensures
            crate::proposals::repository::keyed(final(self).repository.contents()),
            final(self).clock == old(self).clock,
            final(self).default_ttl == old(self).default_ttl,
            final(self).repository.answers() == old(self).repository.answers(),
            ({
                let refusal = edit_refusal(
                    crate::proposals::domain::normalized(before[proposal.id], seen),
                    expected_revision,
                    edit,
                    now,
                );
                match result {
                    Ok(changed) => {
                        &&& before.contains_key(proposal.id)
                        &&& refusal is None
                        &&& crate::proposals::domain::proposal_same(
                            crate::proposals::domain::edited(before[proposal.id], edit, now),
                            changed,
                        )
                        &&& crate::proposals::repository::stores(
                            before,
                            final(self).repository.contents(),
                            crate::proposals::domain::edited(before[proposal.id], edit, now),
                        )
                    },
                    Err(error) => fails(
                        before,
                        final(self).repository.contents(),
                        proposal.id,
                        seen,
                        refusal,
                        old(self).repository.answers(),
                        error,
                    ),
                }
            }),
    {
        let ghost read = proposal;
        let ghost id = proposal.id;
        let ghost present = crate::proposals::domain::normalized(before[id], seen);
        proof {
            lemma_same_proposals(present, read, edit, DecisionKind::Accept, None, now);
        }
        let changed: Proposal = edited_proposal(proposal, expected_revision, edit, now)?;
        let ghost written = changed;
        assert(self.repository.contents() == before);
        match self.repository.replace(changed, expected_revision) {
            Ok(stored) => {
                proof {
                    let wanted = crate::proposals::domain::edited(before[id], edit, now);
                    crate::proposals::domain::proposal_same_transitive(wanted, written, stored);
                    lemma_stores_same(before, self.repository.contents(), wanted, written);
                }
                Ok(stored)
            },
            Err(error) => Err(ProposalServiceError::Repository(error)),
        }
    }

    /// Changes a proposal that is read at `seen`, at `now`.
    pub fn edit_at(
        &mut self,
        id: Uuid,
        expected_revision: u64,
        edit: EditProposal,
        seen: Instant,
        now: Instant,
    ) -> (result: Result<Proposal, ProposalServiceError>)
        requires
            crate::proposals::repository::keyed(old(self).repository.contents()),
            expiry_fits(old(self).repository.contents(), id, seen),
            old(self).repository.contents().contains_key(id) ==> edit_fits(
                crate::proposals::domain::normalized(old(self).repository.contents()[id], seen),
                expected_revision,
                edit,
                now,
            ),
        ensures
            crate::proposals::repository::keyed(final(self).repository.contents()),
            final(self).clock == old(self).clock,
            final(self).default_ttl == old(self).default_ttl,
            final(self).repository.answers() == old(self).repository.answers(),
            ({
                let before = old(self).repository.contents();
                let refusal = edit_refusal(
                    crate::proposals::domain::normalized(before[id], seen),
                    expected_revision,
                    edit,
                    now,
                );
                match result {
                    Ok(proposal) => {
                        &&& before.contains_key(id)
                        &&& refusal is None
                        &&& crate::proposals::domain::proposal_same(
                            crate::proposals::domain::edited(before[id], edit, now),
                            proposal,
                        )
                        &&& crate::proposals::repository::stores(
                            before,
                            final(self).repository.contents(),
                            crate::proposals::domain::edited(before[id], edit, now),
                        )
                    },
                    Err(error) => fails(
                        before,
                        final(self).repository.contents(),
                        id,
                        seen,
                        refusal,
                        old(self).repository.answers(),
                        error,
                    ),
                }
            }),
    {
        let ghost before = self.repository.contents();
        let proposal: Proposal = self.get_at(id, seen)?;
        self.edit_read(proposal, expected_revision, edit, now, Ghost(before), Ghost(seen))
    }

    /// Changes a proposal.
    pub fn edit(&mut self, id: Uuid, expected_revision: u64, edit: EditProposal) -> (result: Result<
        Proposal,
        ProposalServiceError,
    >)
        requires
            crate::proposals::repository::keyed(old(self).repository.contents()),
            forall|seen: Instant| #[trigger]
                old(self).clock.shows(seen) ==> expiry_fits(old(self).repository.contents(), id, seen),
            old(self).repository.contents().contains_key(id) ==> forall|seen: Instant, now: Instant|
                #[trigger] old(self).clock.shows(seen) && #[trigger] old(self).clock.shows(now)
                    ==> edit_fits(
                    crate::proposals::domain::normalized(old(self).repository.contents()[id], seen),
                    expected_revision,
                    edit,
                    now,
                ),
        ensures
            crate::proposals::repository::keyed(final(self).repository.contents()),
            final(self).clock == old(self).clock,
            final(self).default_ttl == old(self).default_ttl,
            final(self).repository.answers() == old(self).repository.answers(),
            exists|seen: Instant, now: Instant|
                #[trigger] crate::time::in_time_range(seen)
                    && #[trigger] crate::time::in_time_range(now) && old(self).clock.shows(seen)
                    && old(self).clock.shows(now) && {
                    let before = old(self).repository.contents();
                    let refusal = edit_refusal(
                        crate::proposals::domain::normalized(before[id], seen),
                        expected_revision,
                        edit,
                        now,
                    );
                    match result {
                        Ok(proposal) => {
                            &&& before.contains_key(id)
                            &&& refusal is None
                            &&& crate::proposals::domain::proposal_same(
                                crate::proposals::domain::edited(before[id], edit, now),
                                proposal,
                            )
                            &&& crate::proposals::repository::stores(
                                before,
                                final(self).repository.contents(),
                                crate::proposals::domain::edited(before[id], edit, now),
                            )
                        },
                        Err(error) => fails(
                            before,
                            final(self).repository.contents(),
                            id,
                            seen,
                            refusal,
                            old(self).repository.answers(),
                            error,
                        ),
                    }
                },
    {
        let ghost before = self.repository.contents();
        let seen: Instant = self.clock.now();
        assert(self.clock.shows(seen) && crate::time::in_time_range(seen));
        match self.get_at(id, seen) {
            Ok(proposal) => {
                let now: Instant = self.clock.now();
                self.edit_read(proposal, expected_revision, edit, now, Ghost(before), Ghost(seen))
            },
            Err(error) => Err(error),
        }
    }

    /// Accepts or rejects a proposal that was read at `seen`, when the store held `before`.
    fn decide_read(
        &mut self,
        proposal: Proposal,
        expected_revision: u64,
        decision: DecisionKind,
        note: Option<String>,
        now: Instant,
        Ghost(before): Ghost<Map<Uuid, Proposal>>,
        Ghost(seen): Ghost<Instant>,
    ) -> (result: Result<Proposal, ProposalServiceError>)
        requires
            crate::proposals::repository::keyed(before),
            crate::proposals::repository::keyed(old(self).repository.contents()),
            before.contains_key(proposal.id),
            decision_fits(
                crate::proposals::domain::normalized(before[proposal.id], seen),
                expected_revision,
                note,
                now,
            ),
            crate::proposals::domain::proposal_same(
                crate::proposals::domain::normalized(before[proposal.id], seen),
                proposal,
            ),
            settles(before, old(self).repository.contents(), proposal.id, seen),
        ensures
            crate::proposals::repository::keyed(final(self).repository.contents()),
            final(self).clock == old(self).clock,
            final(self).default_ttl == old(self).default_ttl,
            final(self).repository.answers() == old(self).repository.answers(),
            ({
                let refusal = decision_refusal(
                    crate::proposals::domain::normalized(before[proposal.id], seen),
                    expected_revision,
                    note,
                    now,
                );
                match result {
                    Ok(changed) => {
                        &&& before.contains_key(proposal.id)
                        &&& refusal is None
                        &&& crate::proposals::domain::proposal_same(
                            crate::proposals::domain::decided(before[proposal.id], decision, note, now),
                            changed,
                        )
                        &&& crate::proposals::repository::stores(
                            before,
                            final(self).repository.contents(),
                            crate::proposals::domain::decided(before[proposal.id], decision, note, now),
                        )
                    },
                    Err(error) => fails(
                        before,
                        final(self).repository.contents(),
                        proposal.id,
                        seen,
                        refusal,
                        old(self).repository.answers(),
                        error,
                    ),
                }
            }),
    {
        let ghost given = note;
        let ghost read = proposal;
        let ghost id = proposal.id;
        let ghost present = crate::proposals::domain::normalized(before[id], seen);
        proof {
            let edit = EditProposal {
                title: None,
                explanation: None,
                payload: None,
                expires_at: None,
            };
            lemma_same_proposals(present, read, edit, decision, given, now);
        }
        let changed: Proposal = decided_proposal(proposal, expected_revision, decision, note, now)?;
        let ghost written = changed;
        assert(self.repository.contents() == before);
        match self.repository.replace(changed, expected_revision) {
            Ok(stored) => {
                proof {
                    let wanted = crate::proposals::domain::decided(
                        before[id],
                        decision,
                        given,
                        now,
                    );
                    crate::proposals::domain::proposal_same_transitive(wanted, written, stored);
                    lemma_stores_same(before, self.repository.contents(), wanted, written);
                }
                Ok(stored)
            },
            Err(error) => Err(ProposalServiceError::Repository(error)),
        }
    }

    /// Accepts or rejects a proposal that is read at `seen`, at `now`.
    pub fn decide_at(
        &mut self,
        id: Uuid,
        expected_revision: u64,
        decision: DecisionKind,
        note: Option<String>,
        seen: Instant,
        now: Instant,
    ) -> (result: Result<Proposal, ProposalServiceError>)
        requires
            crate::proposals::repository::keyed(old(self).repository.contents()),
            expiry_fits(old(self).repository.contents(), id, seen),
            old(self).repository.contents().contains_key(id) ==> decision_fits(
                crate::proposals::domain::normalized(old(self).repository.contents()[id], seen),
                expected_revision,
                note,
                now,
            ),
        ensures
            crate::proposals::repository::keyed(final(self).repository.contents()),
            final(self).clock == old(self).clock,
            final(self).default_ttl == old(self).default_ttl,
            final(self).repository.answers() == old(self).repository.answers(),
            ({
                let before = old(self).repository.contents();
                let refusal = decision_refusal(
                    crate::proposals::domain::normalized(before[id], seen),
                    expected_revision,
                    note,
                    now,
                );
                match result {
                    Ok(proposal) => {
                        &&& before.contains_key(id)
                        &&& refusal is None
                        &&& crate::proposals::domain::proposal_same(
                            crate::proposals::domain::decided(before[id], decision, note, now),
                            proposal,
                        )
                        &&& crate::proposals::repository::stores(
                            before,
                            final(self).repository.contents(),
                            crate::proposals::domain::decided(before[id], decision, note, now),
                        )
                    },
                    Err(error) => fails(
                        before,
                        final(self).repository.contents(),
                        id,
                        seen,
                        refusal,
                        old(self).repository.answers(),
                        error,
                    ),
                }
            }),
    {
        let ghost before = self.repository.contents();
        let proposal: Proposal = self.get_at(id, seen)?;
        self.decide_read(
            proposal,
            expected_revision,
            decision,
            note,
            now,
            Ghost(before),
            Ghost(seen),
        )
    }

    /// Accepts or rejects a proposal.
    pub fn decide(
        &mut self,
        id: Uuid,
        expected_revision: u64,
        decision: DecisionKind,
        note: Option<String>,
    ) -> (result: Result<Proposal, ProposalServiceError>)
        requires
            crate::proposals::repository::keyed(old(self).repository.contents()),
            forall|seen: Instant| #[trigger]
                old(self).clock.shows(seen) ==> expiry_fits(old(self).repository.contents(), id, seen),
            old(self).repository.contents().contains_key(id) ==> forall|seen: Instant, now: Instant|
                #[trigger] old(self).clock.shows(seen) && #[trigger] old(self).clock.shows(now)
                    ==> decision_fits(
                    crate::proposals::domain::normalized(old(self).repository.contents()[id], seen),
                    expected_revision,
                    note,
                    now,
                ),
        ensures
            crate::proposals::repository::keyed(final(self).repository.contents()),
            final(self).clock == old(self).clock,
            final(self).default_ttl == old(self).default_ttl,
            final(self).repository.answers() == old(self).repository.answers(),
            exists|seen: Instant, now: Instant|
                #[trigger] crate::time::in_time_range(seen)
                    && #[trigger] crate::time::in_time_range(now) && old(self).clock.shows(seen)
                    && old(self).clock.shows(now) && {
                    let before = old(self).repository.contents();
                    let refusal = decision_refusal(
                        crate::proposals::domain::normalized(before[id], seen),
                        expected_revision,
                        note,
                        now,
                    );
                    match result {
                        Ok(proposal) => {
                            &&& before.contains_key(id)
                            &&& refusal is None
                            &&& crate::proposals::domain::proposal_same(
                                crate::proposals::domain::decided(before[id], decision, note, now),
                                proposal,
                            )
                            &&& crate::proposals::repository::stores(
                                before,
                                final(self).repository.contents(),
                                crate::proposals::domain::decided(before[id], decision, note, now),
                            )
                        },
                        Err(error) => fails(
                            before,
                            final(self).repository.contents(),
                            id,
                            seen,
                            refusal,
                            old(self).repository.answers(),
                            error,
                        ),
                    }
                },
    {
        let ghost before = self.repository.contents();
        let seen: Instant = self.clock.now();
        assert(self.clock.shows(seen) && crate::time::in_time_range(seen));
        match self.get_at(id, seen) {
            Ok(proposal) => {
                let now: Instant = self.clock.now();
                self.decide_read(
                    proposal,
                    expected_revision,
                    decision,
                    note,
                    now,
                    Ghost(before),
                    Ghost(seen),
                )
            },
            Err(error) => Err(error),
        }
    }

    /// Deletes a proposal, if it has the expected revision.
    pub fn delete(&mut self, id: Uuid, expected_revision: u64) -> (result: Result<
        (),
        ProposalServiceError,
    >)
        requires
            crate::proposals::repository::keyed(old(self).repository.contents()),
        ensures
            crate::proposals::repository::keyed(final(self).repository.contents()),
            final(self).clock == old(self).clock,
            final(self).default_ttl == old(self).default_ttl,
            final(self).repository.answers() == old(self).repository.answers(),
            ({
                let before = old(self).repository.contents();
                let refusal = crate::proposals::repository::revision_refusal(
                    before,
                    id,
                    expected_revision,
                );
                match result {
                    Ok(_) => refusal is None && final(self).repository.contents()
                        == before.remove(id),
                    Err(error) => {
                        &&& final(self).repository.contents() == before
                        &&& {
                            ||| error == ProposalServiceError::Repository(RepositoryError::Internal)
                                && !old(self).repository.answers()
                            ||| refusal is Some && error == ProposalServiceError::Repository(
                                refusal->0,
                            )
                        }
                    },
                }
            }),
    {
        match self.repository.delete(id, expected_revision) {
            Ok(_) => Ok(()),
            Err(error) => Err(ProposalServiceError::Repository(error)),
        }
    }

    /// Lets the proposals that were read expire that are due, each at its instant, and
    /// hands them on as they then are.
    fn settle_list(&mut self, read: &Vec<Proposal>, instants: &Vec<Instant>) -> (result: Result<
        Vec<Proposal>,
        ProposalServiceError,
    >)
        requires
            crate::proposals::repository::keyed(old(self).repository.contents()),
            crate::proposals::repository::in_list_order(read@),
            instants@.len() >= read@.len(),
            reads_fit(read@, instants@),
            forall|k: int|
                0 <= k < read@.len() ==> {
                    &&& old(self).repository.contents().contains_key((#[trigger] read@[k]).id)
                    &&& crate::proposals::domain::proposal_same(
                        old(self).repository.contents()[read@[k].id],
                        read@[k],
                    )
                },
        ensures
            crate::proposals::repository::keyed(final(self).repository.contents()),
            final(self).clock == old(self).clock,
            final(self).default_ttl == old(self).default_ttl,
            final(self).repository.answers() == old(self).repository.answers(),
            match result {
                Ok(list) => {
                    &&& settled_list(read@, instants@, list@, read@.len() as int)
                    &&& list_settles(
                        old(self).repository.contents(),
                        final(self).repository.contents(),
                        read@,
                        instants@,
                        read@.len() as int,
                    )
                },
                Err(error) => {
                    &&& error == ProposalServiceError::Repository(RepositoryError::Internal)
                    &&& !old(self).repository.answers()
                    &&& exists|count: int|
                        0 <= count <= read@.len() && #[trigger] list_settles(
                            old(self).repository.contents(),
                            final(self).repository.contents(),
                            read@,
                            instants@,
                            count,
                        )
                },
            },
    {
        let ghost before = self.repository.contents();
        let mut list: Vec<Proposal> = Vec::new();
        let mut i: usize = 0;
        assert(read@.take(0).len() == 0);
        while i < read.len()
            invariant
                i <= read@.len(),
                instants@.len() >= read@.len(),
                self.repository.answers() == old(self).repository.answers(),
                before == old(self).repository.contents(),
                self.clock == old(self).clock,
                self.default_ttl == old(self).default_ttl,
                crate::proposals::repository::keyed(before),
                crate::proposals::repository::keyed(self.repository.contents()),
                crate::proposals::repository::in_list_order(read@),
                reads_fit(read@, instants@),
                forall|k: int|
                    0 <= k < read@.len() ==> {
                        &&& before.contains_key((#[trigger] read@[k]).id)
                        &&& crate::proposals::domain::proposal_same(before[read@[k].id], read@[k])
                    },
                settled_list(read@, instants@, list@, i as int),
                list_settles(before, self.repository.contents(), read@, instants@, i as int),
            decreases read.len() - i,
        {
            let ghost stored = self.repository.contents();
            let id: Uuid = read[i].id;
            let now: Instant = instants[i];
            proof {
                if crate::proposals::repository::lists(read@.take(i as int), id) {
                    let k = choose|k: int|
                        0 <= k < read@.take(i as int).len() && (#[trigger] read@.take(
                            i as int,
                        )[k]).id == id;
                    assert(crate::proposals::repository::listed_before(read@[k], read@[i as int]));
                    assert(before[read@[k].id] == before[read@[i as int].id]);
                    assert(crate::proposals::domain::proposal_same(before[read@[k].id], read@[k]));
                    assert(false);
                }
                assert(before.contains_key(read@[i as int].id));
                assert(stored[id] == before[id]);
                assert(stored.contains_key(id));
            }
            match self.get_at(id, now) {
                Ok(settled) => {
                    proof {
                        assert(crate::proposals::domain::proposal_same(before[id], read@[i as int]));
                        lemma_settled_alike(before[id], read@[i as int], settled, now);
                        lemma_settle_one(
                            before,
                            stored,
                            self.repository.contents(),
                            read@,
                            instants@,
                            i as int,
                        );
                    }
                    list.push(settled);
                },
                Err(error) => {
                    return Err(error);
                },
            }
            i = i + 1;
        }
        Ok(list)
    }
}

/// A proposal that agrees with what `a` becomes agrees with what an equal one becomes.
proof fn lemma_settled_alike(a: Proposal, b: Proposal, settled: Proposal, now: Instant)
    requires
        crate::proposals::domain::proposal_same(a, b),
        crate::proposals::domain::proposal_same(
            crate::proposals::domain::normalized(a, now),
            settled,
        ),
    ensures
        crate::proposals::domain::proposal_same(
            crate::proposals::domain::normalized(b, now),
            settled,
        ),
{
    crate::proposals::domain::proposal_same_symmetric(a, b);
    let edit = EditProposal { title: None, explanation: None, payload: None, expires_at: None };
    lemma_same_proposals(b, a, edit, DecisionKind::Accept, None, now);
    crate::proposals::domain::proposal_same_transitive(
        crate::proposals::domain::normalized(b, now),
        crate::proposals::domain::normalized(a, now),
        settled,
    );
}

proof fn lemma_settle_one(
    before: Map<Uuid, Proposal>,
    stored: Map<Uuid, Proposal>,
    after: Map<Uuid, Proposal>,
    read: Seq<Proposal>,
    instants: Seq<Instant>,
    i: int,
)
    requires
        0 <= i < read.len(),
        instants.len() >= read.len(),
        crate::proposals::repository::keyed(before),
        list_settles(before, stored, read, instants, i),
        forall|k: int| 0 <= k < read.len() ==> before.contains_key((#[trigger] read[k]).id),
        stored[read[i].id] == before[read[i].id],
        !crate::proposals::repository::lists(read.take(i), read[i].id),
        settles(stored, after, read[i].id, instants[i]),
    ensures
        list_settles(before, after, read, instants, i + 1),
{
    let id = read[i].id;
    assert(stored.contains_key(id));
    assert(stored[id].id == id);
    assert(after.dom() =~= before.dom());
    assert forall|k: int| 0 <= k < i + 1 implies if crate::proposals::domain::due(
        before[(#[trigger] read[k]).id],
        instants[k],
    ) {
        crate::proposals::domain::proposal_same(
            crate::proposals::domain::normalized(before[read[k].id], instants[k]),
            after[read[k].id],
        )
    } else {
        after[read[k].id] == before[read[k].id]
    } by {
        if k < i {
            assert(read.take(i)[k] == read[k]);
            assert(read[k].id != id);
            assert(stored.contains_key(read[k].id));
            assert(after[read[k].id] == stored[read[k].id]);
        }
    }
    assert forall|other: Uuid| #[trigger]
        before.contains_key(other) && !crate::proposals::repository::lists(
            read.take(i + 1),
            other,
        ) implies after[other] == before[other] by {
        assert(read.take(i + 1)[i].id == id);
        assert(other != id);
        if crate::proposals::repository::lists(read.take(i), other) {
            let k = choose|k: int|
                0 <= k < read.take(i).len() && (#[trigger] read.take(i)[k]).id == other;
            assert(read.take(i + 1)[k].id == other);
        }
        assert(stored[other] == before[other]);
        assert(stored.contains_key(other));
    }
}

/// What reading a list makes of a store: every proposal of the source is read, and one that
/// is due at its instant expires, in the store too; of these proposals the list has those of
/// the status that is asked for, up to the limit.
pub open spec fn list_read(
    query: ProposalQuery,
    before: Map<Uuid, Proposal>,
    after: Map<Uuid, Proposal>,
    read: Seq<Proposal>,
    instants: Seq<Instant>,
    list: Seq<Proposal>,
) -> bool {
    &&& crate::proposals::repository::listing(
        before,
        ProposalQuery { status: None, source: query.source, limit: usize::MAX },
        read,
    )
    &&& read.len() <= instants.len()
    &&& list_settles(before, after, read, instants, read.len() as int)
    &&& exists|settled: Seq<Proposal>|
        #[trigger] settled_list(read, instants, settled, read.len() as int) && list == selected(
            query,
            settled,
        )
}

/// What a store that fails leaves behind when a list is read: nothing has changed, or some of
/// the proposals of the source that are due, the first ones, have expired.
pub open spec fn list_broken_off(
    query: ProposalQuery,
    before: Map<Uuid, Proposal>,
    after: Map<Uuid, Proposal>,
    read: Seq<Proposal>,
    instants: Seq<Instant>,
) -> bool {
    ||| after == before
    ||| {
        &&& crate::proposals::repository::listing(
            before,
            ProposalQuery { status: None, source: query.source, limit: usize::MAX },
            read,
        )
        &&& read.len() <= instants.len()
        &&& exists|count: int|
            0 <= count <= read.len() && #[trigger] list_settles(
                before,
                after,
                read,
                instants,
                count,
            )
    }
}

/// Whether a clock can show these instants.
pub open spec fn clock_shows<C: Clock>(clock: C, instants: Seq<Instant>) -> bool {
    forall|k: int|
        0 <= k < instants.len() ==> clock.shows(#[trigger] instants[k])
            && crate::time::in_time_range(instants[k])
}

/// A list has at most as many proposals as the store.
proof fn lemma_list_fits(stored: Map<Uuid, Proposal>, query: ProposalQuery, list: Seq<Proposal>)
    requires
        stored.dom().finite(),
        crate::proposals::repository::listing(stored, query, list),
    ensures
        list.len() <= stored.dom().len(),
{
    let ids = list.map_values(|proposal: Proposal| proposal.id);
    assert forall|i: int, j: int| 0 <= i < ids.len() && 0 <= j < ids.len() && i != j implies ids[i]
        != ids[j] by {
        if list[i].id == list[j].id {
            assert(crate::proposals::domain::proposal_same(stored[list[i].id], list[i]));
            assert(crate::proposals::domain::proposal_same(stored[list[j].id], list[j]));
            if i < j {
                assert(crate::proposals::repository::listed_before(list[i], list[j]));
            } else {
                assert(crate::proposals::repository::listed_before(list[j], list[i]));
            }
        }
    }
    ids.unique_seq_to_set();
    assert(ids.to_set().subset_of(stored.dom())) by {
        assert forall|id: Uuid| ids.to_set().contains(id) implies stored.dom().contains(id) by {
            let k = choose|k: int| 0 <= k < ids.len() && ids[k] == id;
            assert(stored.contains_key(list[k].id));
        }
    }
    vstd::set_lib::lemma_len_subset(ids.to_set(), stored.dom());
}

impl<R: ProposalRepository, C: Clock> ProposalService<R, C> {
    /// The proposals that a query asks for, each as it is at the instant at which it is read:
    /// the newest one at the first, and so on. There are as many instants as proposals in the
    /// store, or more.
    pub fn list_at(&mut self, query: ProposalQuery, instants: &Vec<Instant>) -> (result: Result<
        Vec<Proposal>,
        ProposalServiceError,
    >)
        requires
            crate::proposals::repository::keyed(old(self).repository.contents()),
            list_fits(old(self).repository.contents(), query, instants@),
            old(self).repository.contents().dom().finite(),
            old(self).repository.contents().dom().len() <= instants@.len(),
        ensures
            crate::proposals::repository::keyed(final(self).repository.contents()),
            final(self).clock == old(self).clock,
            final(self).default_ttl == old(self).default_ttl,
            final(self).repository.answers() == old(self).repository.answers(),
            match result {
                Ok(list) => exists|read: Seq<Proposal>| #[trigger]
                    list_read(
                        query,
                        old(self).repository.contents(),
                        final(self).repository.contents(),
                        read,
                        instants@,
                        list@,
                    ),
                Err(error) => {
                    &&& error == ProposalServiceError::Repository(RepositoryError::Internal)
                    &&& !old(self).repository.answers()
                    &&& exists|read: Seq<Proposal>| #[trigger]
                        list_broken_off(
                            query,
                            old(self).repository.contents(),
                            final(self).repository.contents(),
                            read,
                            instants@,
                        )
                },
            },
    {
        let ghost before = self.repository.contents();
        let read: Vec<Proposal> = match self.repository.list(candidate_query(&query)) {
            Ok(read) => read,
            Err(error) => {
                assert(list_broken_off(query, before, before, Seq::empty(), instants@));
                return Err(ProposalServiceError::Repository(error));
            },
        };
        proof {
            lemma_list_fits(
                before,
                ProposalQuery { status: None, source: query.source, limit: usize::MAX },
                read@,
            );
        }
        self.list_of_read(&query, &read, instants)
    }

    /// The list of the proposals that were read, each as it is at its instant.
    fn list_of_read(&mut self, query: &ProposalQuery, read: &Vec<Proposal>, instants: &Vec<
        Instant,
    >) -> (result: Result<Vec<Proposal>, ProposalServiceError>)
        requires
            crate::proposals::repository::keyed(old(self).repository.contents()),
            reads_fit(read@, instants@),
            crate::proposals::repository::listing(
                old(self).repository.contents(),
                ProposalQuery { status: None, source: query.source, limit: usize::MAX },
                read@,
            ),
            read@.len() <= instants@.len(),
        ensures
            crate::proposals::repository::keyed(final(self).repository.contents()),
            final(self).clock == old(self).clock,
            final(self).default_ttl == old(self).default_ttl,
            final(self).repository.answers() == old(self).repository.answers(),
            match result {
                Ok(list) => list_read(
                    *query,
                    old(self).repository.contents(),
                    final(self).repository.contents(),
                    read@,
                    instants@,
                    list@,
                ),
                Err(error) => {
                    &&& error == ProposalServiceError::Repository(RepositoryError::Internal)
                    &&& !old(self).repository.answers()
                    &&& list_broken_off(
                        *query,
                        old(self).repository.contents(),
                        final(self).repository.contents(),
                        read@,
                        instants@,
                    )
                },
            },
    {
        let ghost before = self.repository.contents();
        proof {
            assert forall|k: int| 0 <= k < read@.len() implies {
                &&& before.contains_key((#[trigger] read@[k]).id)
                &&& crate::proposals::domain::proposal_same(before[read@[k].id], read@[k])
            } by {
                assert(before.contains_key(read@[k].id));
            }
        }
        let settled: Vec<Proposal> = self.settle_list(read, instants)?;
        let ghost whole = settled@;
        assert(settled_list(read@, instants@, whole, read@.len() as int));
        Ok(select_listed(query, settled))
    }

    /// The proposals that a query asks for, as they are now. Those that are due expire
    /// before the status is looked at, so that a query for expired ones finds them.
    pub fn list(&mut self, query: ProposalQuery) -> (result: Result<
        Vec<Proposal>,
        ProposalServiceError,
    >)
        requires
            crate::proposals::repository::keyed(old(self).repository.contents()),
            forall|id: Uuid, now: Instant|
                #[trigger] old(self).repository.contents().contains_key(id)
                    && #[trigger] old(self).clock.shows(now) && source_asked_for(
                    query,
                    old(self).repository.contents()[id],
                ) ==> expiry_fits(old(self).repository.contents(), id, now),
        ensures
            crate::proposals::repository::keyed(final(self).repository.contents()),
            final(self).clock == old(self).clock,
            final(self).default_ttl == old(self).default_ttl,
            final(self).repository.answers() == old(self).repository.answers(),
            match result {
                Ok(list) => exists|read: Seq<Proposal>, instants: Seq<Instant>|
                    {
                        &&& #[trigger] list_read(
                            query,
                            old(self).repository.contents(),
                            final(self).repository.contents(),
                            read,
                            instants,
                            list@,
                        )
                        &&& instants.len() == read.len()
                        &&& clock_shows(old(self).clock, instants)
                    },
                Err(error) => {
                    &&& error == ProposalServiceError::Repository(RepositoryError::Internal)
                    &&& !old(self).repository.answers()
                    &&& exists|read: Seq<Proposal>, instants: Seq<Instant>|
                        {
                            &&& #[trigger] list_broken_off(
                                query,
                                old(self).repository.contents(),
                                final(self).repository.contents(),
                                read,
                                instants,
                            )
                            &&& instants.len() == read.len()
                            &&& clock_shows(old(self).clock, instants)
                        }
                },
            },
    {
        let ghost before = self.repository.contents();
        let read: Vec<Proposal> = match self.repository.list(candidate_query(&query)) {
            Ok(read) => read,
            Err(error) => {
                assert(list_broken_off(
                    query,
                    before,
                    before,
                    Seq::<Proposal>::empty(),
                    Seq::<Instant>::empty(),
                ));
                return Err(ProposalServiceError::Repository(error));
            },
        };
        let mut instants: Vec<Instant> = Vec::new();
        while instants.len() < read.len()
            invariant
                instants@.len() <= read@.len(),
                *self == *old(self),
                clock_shows(self.clock, instants@),
            decreases read.len() - instants.len(),
        {
            let now: Instant = self.clock.now();
            instants.push(now);
        }
        proof {
            assert forall|k: int|
                0 <= k < read@.len() && crate::proposals::domain::due(
                    #[trigger] read@[k],
                    instants@[k],
                ) implies read@[k].revision < u64::MAX by {
                assert(before.contains_key(read@[k].id));
                assert(self.clock.shows(instants@[k]));
                assert(expiry_fits(before, read@[k].id, instants@[k]));
            }
        }
        self.list_of_read(&query, &read, &instants)
    }
}

/// Where the clock stands still at `now`, a list leaves a store that answers with every
/// proposal of the source as it is at `now`, also those that the list leaves out, and every
/// other proposal as it was.
pub proof fn list_settles_the_whole_source(
    query: ProposalQuery,
    before: Map<Uuid, Proposal>,
    after: Map<Uuid, Proposal>,
    read: Seq<Proposal>,
    instants: Seq<Instant>,
    list: Seq<Proposal>,
    now: Instant,
    id: Uuid,
)
    requires
        crate::proposals::repository::keyed(before),
        before.dom().finite(),
        before.dom().len() < usize::MAX,
        list_read(query, before, after, read, instants, list),
        forall|k: int| 0 <= k < instants.len() ==> #[trigger] instants[k] == now,
        before.contains_key(id),
    ensures
        after.contains_key(id),
        if source_asked_for(query, before[id]) && crate::proposals::domain::due(before[id], now) {
            crate::proposals::domain::proposal_same(
                crate::proposals::domain::normalized(before[id], now),
                after[id],
            )
        } else {
            after[id] == before[id]
        },
{
    let wanted = ProposalQuery { status: None, source: query.source, limit: usize::MAX };
    lemma_list_fits(before, wanted, read);
    assert(read.take(read.len() as int) =~= read);
    if crate::proposals::repository::lists(read, id) {
        let k = choose|k: int| 0 <= k < read.len() && (#[trigger] read[k]).id == id;
        assert(instants[k] == now);
        assert(before.contains_key(read[k].id));
    }
}

/// No proposal is listed, or handed out, as pending that is due: what is read at an
/// instant is either decided, or has time left.
pub proof fn read_proposals_are_not_overdue(stored: Proposal, read: Proposal, now: Instant)
    requires
        crate::proposals::domain::proposal_same(
            crate::proposals::domain::normalized(stored, now),
            read,
        ),
    ensures
        read.status == ProposalStatus::Pending ==> read.expires_at > now,
{
}

/// A change that was refused leaves the proposal as it was, unless it was due: then it
/// has expired.
pub proof fn refused_change_leaves_the_proposal(
    before: Map<Uuid, Proposal>,
    after: Map<Uuid, Proposal>,
    id: Uuid,
    seen: Instant,
    refusal: Option<ProposalServiceError>,
    answers: bool,
    error: ProposalServiceError,
)
    requires
        fails(before, after, id, seen, refusal, answers, error),
        before.contains_key(id),
        !crate::proposals::domain::due(before[id], seen),
    ensures
        after == before,
{
}

} // verus!
