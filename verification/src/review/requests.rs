//! The proposals of a review: whether a request for it stands, which proposals it is
//! about, and which commands they come to.
use std::collections::BTreeMap;

use vstd::prelude::*;

use crate::ids::insert_id;
use crate::items::model::ItemKind;
use crate::proposals::application::{
    ProposalChangeSet, ProposalCommand, ProposalConflictCode, ProposalPreviewMember,
    ProposalPreviewRequest, ReadItem, MAX_PROPOSALS_PER_PREVIEW,
};
use crate::proposals::domain::{Proposal, ProposalKind, ProposalStatus};
use crate::review::errors::{change_set_error_message, validation, ProposalApplicationError};
use crate::time::{Instant, Uuid};

verus! {

/// How many reviews of one owner may be open at a time.
pub const MAX_ACTIVE_PREVIEWS: i64 = 100;

/// Whether a proposal is named before place `k` of a request.
pub open spec fn named_before(members: Seq<ProposalPreviewMember>, k: int, id: Uuid) -> bool {
    exists|j: int| 0 <= j < k && (#[trigger] members[j]).proposal_id == id
}

/// What is wrong with the member at `k` of a request.
pub open spec fn member_error(members: Seq<ProposalPreviewMember>, k: int) -> Option<Seq<char>> {
    if members[k].expected_revision == 0 {
        Some("expected_revision must be positive"@)
    } else if named_before(members, k, members[k].proposal_id) {
        Some("proposal ids must be unique"@)
    } else {
        None
    }
}

/// What is wrong with the first member from place `k` on that something is wrong with.
pub open spec fn first_member_error(members: Seq<ProposalPreviewMember>, k: int) -> Option<
    Seq<char>,
>
    decreases members.len() - k,
{
    if k < 0 || k >= members.len() {
        None
    } else {
        match member_error(members, k) {
            Some(error) => Some(error),
            None => first_member_error(members, k + 1),
        }
    }
}

/// What is wrong with a request for a review.
pub open spec fn request_error(members: Seq<ProposalPreviewMember>) -> Option<Seq<char>> {
    if members.len() == 0 || members.len() > MAX_PROPOSALS_PER_PREVIEW {
        Some("proposals must contain between 1 and 20 members"@)
    } else {
        first_member_error(members, 0)
    }
}

fn is_named_before(members: &Vec<ProposalPreviewMember>, k: usize, id: Uuid) -> (result: bool)
    requires
        k <= members@.len(),
    ensures
        result == named_before(members@, k as int, id),
{
    let mut j: usize = 0;
    while j < k
        invariant
            j <= k <= members@.len(),
            !named_before(members@, j as int, id),
        decreases k - j,
    {
        if members[j].proposal_id == id {
            assert(members@[j as int].proposal_id == id);
            return true;
        }
        j = j + 1;
    }
    false
}

/// Whether a request for a review stands.
pub fn validate_preview_request(request: &ProposalPreviewRequest) -> (result: Result<
    (),
    ProposalApplicationError,
>)
    ensures
        match result {
            Ok(_) => request_error(request.proposals@) is None,
            Err(error) => request_error(request.proposals@) matches Some(text) && error@
                == crate::review::errors::Refusal::Validation(text),
        },
{
    if request.proposals.len() == 0 || request.proposals.len() > MAX_PROPOSALS_PER_PREVIEW {
        return Err(validation("proposals must contain between 1 and 20 members"));
    }
    let mut k: usize = 0;
    while k < request.proposals.len()
        invariant
            k <= request.proposals@.len(),
            0 < request.proposals@.len() <= MAX_PROPOSALS_PER_PREVIEW,
            first_member_error(request.proposals@, 0) == first_member_error(
                request.proposals@,
                k as int,
            ),
        decreases request.proposals.len() - k,
    {
        let member: ProposalPreviewMember = request.proposals[k];
        if member.expected_revision == 0 {
            return Err(validation("expected_revision must be positive"));
        }
        if is_named_before(&request.proposals, k, member.proposal_id) {
            return Err(validation("proposal ids must be unique"));
        }
        k = k + 1;
    }
    Ok(())
}

proof fn lemma_no_member_error(members: Seq<ProposalPreviewMember>, from: int, k: int)
    requires
        first_member_error(members, from) is None,
        0 <= from <= k < members.len(),
    ensures
        member_error(members, k) is None,
    decreases k - from,
{
    if from < k {
        lemma_no_member_error(members, from + 1, k);
    }
}

/// Whether no proposal is named twice.
pub open spec fn named_once(members: Seq<ProposalPreviewMember>) -> bool {
    forall|i: int, j: int|
        0 <= i < j < members.len() ==> (#[trigger] members[i]).proposal_id != (
        #[trigger] members[j]).proposal_id
}

/// In a request that stands no proposal is named twice, and every expected revision is
/// positive.
pub proof fn accepted_request_names_proposals_once(members: Seq<ProposalPreviewMember>)
    requires
        request_error(members) is None,
    ensures
        named_once(members),
        forall|k: int| 0 <= k < members.len() ==> (#[trigger] members[k]).expected_revision > 0,
{
    assert forall|i: int, j: int| 0 <= i < j < members.len() implies (
    #[trigger] members[i]).proposal_id != (#[trigger] members[j]).proposal_id by {
        lemma_no_member_error(members, 0, j);
    }
    assert forall|k: int| 0 <= k < members.len() implies (
    #[trigger] members[k]).expected_revision > 0 by {
        lemma_no_member_error(members, 0, k);
    }
}

/// Whether no proposal is named twice.
pub fn all_named_once(members: &Vec<ProposalPreviewMember>) -> (result: bool)
    ensures
        result == named_once(members@),
{
    let mut k: usize = 0;
    while k < members.len()
        invariant
            k <= members.len(),
            named_once(members@.take(k as int)),
        decreases members.len() - k,
    {
        if is_named_before(members, k, members[k].proposal_id) {
            proof {
                let j = choose|j: int|
                    0 <= j < k && (#[trigger] members@[j]).proposal_id
                        == members@[k as int].proposal_id;
                assert(members@[j].proposal_id == members@[k as int].proposal_id);
            }
            return false;
        }
        proof {
            let longer = members@.take(k + 1);
            assert forall|i: int, j: int| 0 <= i < j < longer.len() implies (
            #[trigger] longer[i]).proposal_id != (#[trigger] longer[j]).proposal_id by {
                if j < k {
                    assert(members@.take(k as int)[i] == longer[i]);
                    assert(members@.take(k as int)[j] == longer[j]);
                } else {
                    assert(members@[i].proposal_id != members@[k as int].proposal_id);
                }
            }
        }
        k = k + 1;
    }
    assert(members@.take(k as int) =~= members@);
    true
}

/// Whether one more review may be opened. `active` is how many are open.
pub fn check_active_previews(active: i64) -> (result: Result<(), ProposalApplicationError>)
    ensures
        match result {
            Ok(_) => active < MAX_ACTIVE_PREVIEWS,
            Err(error) => active >= MAX_ACTIVE_PREVIEWS && error@
                == crate::review::errors::Refusal::Validation(
                "too many active proposal previews; wait for an existing preview to expire"@,
            ),
        },
{
    if active >= MAX_ACTIVE_PREVIEWS {
        Err(
            validation(
                "too many active proposal previews; wait for an existing preview to expire",
            ),
        )
    } else {
        Ok(())
    }
}

/// What is stored under the identifier of a proposal.
#[derive(Debug)]
pub enum ProposalLookup {
    Missing,
    Unreadable,
    Found(Proposal),
}

/// The proposals of a request in the order in which they are looked up.
pub open spec fn lookup_order(members: Seq<ProposalPreviewMember>, ids: Seq<Uuid>) -> bool {
    &&& crate::ids::increasing(ids)
    &&& forall|id: Uuid| #[trigger] ids.contains(id) <==> named_before(
        members,
        members.len() as int,
        id,
    )
}

/// The proposals of a request in the order in which they are looked up: always the same
/// one, so that two reviews never wait for each other.
pub fn requested_ids(members: &Vec<ProposalPreviewMember>) -> (result: Vec<Uuid>)
    ensures
        lookup_order(members@, result@),
{
    let mut ids: Vec<Uuid> = Vec::new();
    let mut i: usize = 0;
    while i < members.len()
        invariant
            i <= members.len(),
            crate::ids::increasing(ids@),
            forall|id: Uuid| #[trigger] ids@.contains(id) <==> named_before(members@, i as int, id),
        decreases members.len() - i,
    {
        let ghost before = ids@;
        insert_id(&mut ids, members[i].proposal_id);
        proof {
            assert forall|id: Uuid| #[trigger] ids@.contains(id) <==> named_before(
                members@,
                i + 1,
                id,
            ) by {
                if before.contains(id) {
                    let j = choose|j: int|
                        0 <= j < i && (#[trigger] members@[j]).proposal_id == id;
                    assert(members@[j].proposal_id == id);
                }
                if id == members@[i as int].proposal_id {
                    assert(members@[i as int].proposal_id == id);
                }
            }
        }
        i = i + 1;
    }
    ids
}

/// The revision that a request expects of a proposal: that of the first member that
/// names it.
pub open spec fn expected_revision(members: Seq<ProposalPreviewMember>, id: Uuid) -> u64
    decreases members.len(),
{
    if members.len() == 0 {
        0
    } else if members[0].proposal_id == id {
        members[0].expected_revision
    } else {
        expected_revision(members.skip(1), id)
    }
}

fn expected_revision_of(members: &Vec<ProposalPreviewMember>, id: Uuid) -> (result: u64)
    ensures
        result == expected_revision(members@, id),
{
    let mut i: usize = 0;
    assert(members@.skip(0) =~= members@);
    while i < members.len()
        invariant
            i <= members.len(),
            expected_revision(members@, id) == expected_revision(members@.skip(i as int), id),
        decreases members.len() - i,
    {
        assert(members@.skip(i as int)[0] == members@[i as int]);
        assert(members@.skip(i as int).skip(1) =~= members@.skip(i + 1));
        if members[i].proposal_id == id {
            return members[i].expected_revision;
        }
        i = i + 1;
    }
    0
}

/// Why a proposal that was looked up cannot be reviewed.
pub open spec fn lookup_refusal(
    members: Seq<ProposalPreviewMember>,
    id: Uuid,
    lookup: ProposalLookup,
) -> Option<crate::review::errors::Refusal> {
    match lookup {
        ProposalLookup::Missing => Some(crate::review::errors::Refusal::NotFound),
        ProposalLookup::Unreadable => Some(crate::review::errors::Refusal::Internal),
        ProposalLookup::Found(proposal) => if proposal.id != id {
            Some(crate::review::errors::Refusal::Internal)
        } else if proposal.revision != expected_revision(members, id) {
            Some(
                crate::review::errors::Refusal::RevisionConflict {
                    expected: expected_revision(members, id),
                    actual: proposal.revision,
                },
            )
        } else {
            None
        },
    }
}

/// Why the proposals from place `k` on cannot be reviewed.
pub open spec fn first_lookup_refusal(
    members: Seq<ProposalPreviewMember>,
    ids: Seq<Uuid>,
    lookups: Seq<ProposalLookup>,
    k: int,
) -> Option<crate::review::errors::Refusal>
    decreases ids.len() - k,
{
    if k < 0 || k >= ids.len() {
        None
    } else {
        match lookup_refusal(members, ids[k], lookups[k]) {
            Some(refusal) => Some(refusal),
            None => first_lookup_refusal(members, ids, lookups, k + 1),
        }
    }
}

/// Whether `proposals` are those that were looked up, by their identifiers.
pub open spec fn gathered(
    ids: Seq<Uuid>,
    lookups: Seq<ProposalLookup>,
    proposals: Map<Uuid, Proposal>,
    count: int,
) -> bool {
    forall|id: Uuid| #[trigger]
        proposals.contains_key(id) <==> exists|k: int|
            0 <= k < count && #[trigger] ids[k] == id && lookups[k] == ProposalLookup::Found(
                proposals[id],
            )
}

/// Whether `proposal` is what was looked up for `id`.
pub open spec fn looked_up(
    ids: Seq<Uuid>,
    lookups: Seq<ProposalLookup>,
    id: Uuid,
    proposal: Proposal,
) -> bool {
    exists|k: int|
        0 <= k < ids.len() && #[trigger] ids[k] == id && lookups[k] == ProposalLookup::Found(
            proposal,
        )
}

/// The proposals that a request is about, in the order of the request. `ids` are those of
/// the request in the order in which they are looked up, and `lookups` what was found.
pub fn requested_proposals(
    members: &Vec<ProposalPreviewMember>,
    ids: &Vec<Uuid>,
    lookups: Vec<ProposalLookup>,
) -> (result: Result<Vec<Proposal>, ProposalApplicationError>)
    requires
        named_once(members@),
        lookup_order(members@, ids@),
        lookups@.len() == ids@.len(),
    ensures
        match result {
            Ok(proposals) => {
                &&& first_lookup_refusal(members@, ids@, lookups@, 0) is None
                &&& proposals@.len() == members@.len()
                &&& forall|k: int|
                    0 <= k < members@.len() ==> looked_up(
                        ids@,
                        lookups@,
                        members@[k].proposal_id,
                        #[trigger] proposals@[k],
                    )
            },
            Err(error) => first_lookup_refusal(members@, ids@, lookups@, 0) == Some(error@),
        },
{
    let ghost all = lookups@;
    let count: usize = ids.len();
    let mut remaining: Vec<ProposalLookup> = lookups;
    let mut by_id: BTreeMap<Uuid, Proposal> = BTreeMap::new();
    let mut k: usize = 0;
    while k < count
        invariant
            k <= count,
            count == ids@.len(),
            lookup_order(members@, ids@),
            all.len() == ids@.len(),
            lookups@ == all,
            remaining@ == all.skip(k as int),
            gathered(ids@, all, by_id@, k as int),
            forall|j: int| 0 <= j < k ==> by_id@.contains_key(#[trigger] ids@[j]),
            first_lookup_refusal(members@, ids@, all, 0) == first_lookup_refusal(
                members@,
                ids@,
                all,
                k as int,
            ),
        decreases count - k,
    {
        let id: Uuid = ids[k];
        let lookup: ProposalLookup = remaining.remove(0);
        assert(lookup == all[k as int]);
        assert(remaining@ =~= all.skip(k + 1));
        match lookup {
            ProposalLookup::Missing => {
                return Err(ProposalApplicationError::NotFound);
            },
            ProposalLookup::Unreadable => {
                return Err(ProposalApplicationError::Internal);
            },
            ProposalLookup::Found(proposal) => {
                if proposal.id != id {
                    return Err(ProposalApplicationError::Internal);
                }
                let expected: u64 = expected_revision_of(members, id);
                if proposal.revision != expected {
                    return Err(
                        ProposalApplicationError::RevisionConflict {
                            expected,
                            actual: proposal.revision,
                        },
                    );
                }
                let ghost before = by_id@;
                let ghost found = proposal;
                by_id.insert(id, proposal);
                proof {
                    assert(by_id@ == before.insert(id, found));
                    assert forall|other: Uuid| #[trigger]
                        by_id@.contains_key(other) <==> exists|j: int|
                            0 <= j < k + 1 && #[trigger] ids@[j] == other && all[j]
                                == ProposalLookup::Found(by_id@[other]) by {
                        if other == id {
                            assert(ids@[k as int] == other && all[k as int]
                                == ProposalLookup::Found(by_id@[other]));
                        } else if before.contains_key(other) {
                            let j = choose|j: int|
                                0 <= j < k && #[trigger] ids@[j] == other && all[j]
                                    == ProposalLookup::Found(before[other]);
                            assert(ids@[j] == other && all[j] == ProposalLookup::Found(
                                by_id@[other],
                            ));
                        } else if exists|j: int|
                            0 <= j < k + 1 && #[trigger] ids@[j] == other && all[j]
                                == ProposalLookup::Found(by_id@[other]) {
                            let j = choose|j: int|
                                0 <= j < k + 1 && #[trigger] ids@[j] == other && all[j]
                                    == ProposalLookup::Found(by_id@[other]);
                            assert(j < k);
                            assert(before.contains_key(ids@[j]));
                        }
                    }
                }
            },
        }
        k = k + 1;
    }
    proof {
        assert forall|j: int| 0 <= j < members@.len() implies by_id@.contains_key(
            (#[trigger] members@[j]).proposal_id,
        ) by {
            assert(named_before(members@, members@.len() as int, members@[j].proposal_id));
            assert(ids@.contains(members@[j].proposal_id));
            let place = choose|place: int|
                0 <= place < ids@.len() && ids@[place] == members@[j].proposal_id;
            assert(by_id@.contains_key(ids@[place]));
        }
    }
    let mut proposals: Vec<Proposal> = Vec::new();
    let mut i: usize = 0;
    while i < members.len()
        invariant
            i <= members.len(),
            named_once(members@),
            lookup_order(members@, ids@),
            lookups@ == all,
            proposals@.len() == i,
            first_lookup_refusal(members@, ids@, all, 0) is None,
            forall|j: int|
                0 <= j < i ==> looked_up(
                    ids@,
                    all,
                    members@[j].proposal_id,
                    #[trigger] proposals@[j],
                ),
            forall|j: int|
                i <= j < members@.len() ==> by_id@.contains_key(
                    (#[trigger] members@[j]).proposal_id,
                ),
            forall|id: Uuid| #[trigger]
                by_id@.contains_key(id) ==> looked_up(ids@, all, id, by_id@[id]),
        decreases members.len() - i,
    {
        let id: Uuid = members[i].proposal_id;
        match by_id.remove(&id) {
            Some(proposal) => {
                proposals.push(proposal);
            },
            None => {
                assert(by_id@.contains_key(members@[i as int].proposal_id));
                return Err(ProposalApplicationError::Internal);
            },
        }
        i = i + 1;
    }
    Ok(proposals)
}

/// Whether a kind of proposal can have these commands: creations of the kind that the
/// proposal announces, or changes of existing items. Plans and recommendations have
/// none.
pub open spec fn kind_allows(kind: ProposalKind, commands: Seq<ProposalCommand>) -> bool {
    match kind {
        ProposalKind::CreateItem => commands.len() == 1 && commands[0] is CreateItem,
        ProposalKind::GoalBreakdown => forall|k: int|
            0 <= k < commands.len() ==> (#[trigger] commands[k]) is CreateItem,
        ProposalKind::CalendarEvent => forall|k: int|
            0 <= k < commands.len() ==> creates_event(#[trigger] commands[k]),
        ProposalKind::UpdateItem | ProposalKind::ConstraintChange => forall|k: int|
            0 <= k < commands.len() ==> !((#[trigger] commands[k]) is CreateItem),
        ProposalKind::SchedulePlan | ProposalKind::Recommendation => false,
    }
}

/// Whether a command creates an event.
pub open spec fn creates_event(command: ProposalCommand) -> bool {
    match command {
        ProposalCommand::CreateItem { item, .. } => item.kind == ItemKind::Event,
        _ => false,
    }
}

fn only_creations(commands: &Vec<ProposalCommand>) -> (result: bool)
    ensures
        result == forall|k: int|
            0 <= k < commands@.len() ==> (#[trigger] commands@[k]) is CreateItem,
{
    let mut i: usize = 0;
    while i < commands.len()
        invariant
            i <= commands.len(),
            forall|k: int| 0 <= k < i ==> (#[trigger] commands@[k]) is CreateItem,
        decreases commands.len() - i,
    {
        match &commands[i] {
            ProposalCommand::CreateItem { .. } => {},
            _ => {
                assert(!(commands@[i as int] is CreateItem));
                return false;
            },
        }
        i = i + 1;
    }
    true
}

fn only_events(commands: &Vec<ProposalCommand>) -> (result: bool)
    ensures
        result == forall|k: int| 0 <= k < commands@.len() ==> creates_event(#[trigger] commands@[k]),
{
    let mut i: usize = 0;
    while i < commands.len()
        invariant
            i <= commands.len(),
            forall|k: int| 0 <= k < i ==> creates_event(#[trigger] commands@[k]),
        decreases commands.len() - i,
    {
        let event: bool = match &commands[i] {
            ProposalCommand::CreateItem { item, .. } => item.kind == ItemKind::Event,
            _ => false,
        };
        if !event {
            assert(!creates_event(commands@[i as int]));
            return false;
        }
        i = i + 1;
    }
    true
}

fn no_creations(commands: &Vec<ProposalCommand>) -> (result: bool)
    ensures
        result == forall|k: int|
            0 <= k < commands@.len() ==> !((#[trigger] commands@[k]) is CreateItem),
{
    let mut i: usize = 0;
    while i < commands.len()
        invariant
            i <= commands.len(),
            forall|k: int| 0 <= k < i ==> !((#[trigger] commands@[k]) is CreateItem),
        decreases commands.len() - i,
    {
        match &commands[i] {
            ProposalCommand::CreateItem { .. } => {
                assert(commands@[i as int] is CreateItem);
                return false;
            },
            _ => {},
        }
        i = i + 1;
    }
    true
}

/// Whether a kind of proposal can have these commands.
pub fn validate_kind_contract(kind: ProposalKind, commands: &Vec<ProposalCommand>) -> (result:
    Result<(), ProposalApplicationError>)
    ensures
        match result {
            Ok(_) => kind_allows(kind, commands@),
            Err(error) => !kind_allows(kind, commands@) && error@
                == crate::review::errors::Refusal::Validation(
                "proposal kind is not compatible with its typed item commands"@,
            ),
        },
{
    let valid: bool = match kind {
        ProposalKind::CreateItem => commands.len() == 1 && match &commands[0] {
            ProposalCommand::CreateItem { .. } => true,
            _ => false,
        },
        ProposalKind::GoalBreakdown => only_creations(commands),
        ProposalKind::CalendarEvent => only_events(commands),
        ProposalKind::UpdateItem | ProposalKind::ConstraintChange => no_creations(commands),
        ProposalKind::SchedulePlan | ProposalKind::Recommendation => false,
    };
    if valid {
        Ok(())
    } else {
        Err(validation("proposal kind is not compatible with its typed item commands"))
    }
}

/// Why a proposal cannot be part of a review: it was decided, it has expired, or its
/// payload is no change set of its kind.
pub open spec fn change_refusal(proposal: Proposal, items: Seq<ReadItem>, now: Instant) -> Option<
    crate::review::errors::Refusal,
> {
    if proposal.status != ProposalStatus::Pending {
        Some(
            crate::review::errors::Refusal::Stale(ProposalConflictCode::ProposalNotPending),
        )
    } else if proposal.expires_at <= now {
        Some(crate::review::errors::Refusal::Stale(ProposalConflictCode::ProposalExpired))
    } else if !(crate::proposals::application::payload_reads(proposal.payload, items)
        && crate::proposals::application::well_formed(
        crate::proposals::application::payload_commands(proposal.payload, items),
    )) {
        Some(
            crate::review::errors::Refusal::Validation(
                "payload does not match dayweave.proposal-change-set/1"@,
            ),
        )
    } else if !kind_allows(
        proposal.kind,
        crate::proposals::application::payload_commands(proposal.payload, items),
    ) {
        Some(
            crate::review::errors::Refusal::Validation(
                "proposal kind is not compatible with its typed item commands"@,
            ),
        )
    } else {
        None
    }
}

/// Why the proposals from place `k` on cannot be part of a review.
pub open spec fn first_change_refusal(
    proposals: Seq<Proposal>,
    items: Seq<Vec<ReadItem>>,
    now: Instant,
    k: int,
) -> Option<crate::review::errors::Refusal>
    decreases proposals.len() - k,
{
    if k < 0 || k >= proposals.len() {
        None
    } else {
        match change_refusal(proposals[k], items[k]@, now) {
            Some(refusal) => Some(refusal),
            None => first_change_refusal(proposals, items, now, k + 1),
        }
    }
}

/// The commands of the first `count` proposals, one after the other.
pub open spec fn commands_of(
    proposals: Seq<Proposal>,
    items: Seq<Vec<ReadItem>>,
    count: nat,
) -> Seq<ProposalCommand>
    decreases count,
{
    if count == 0 {
        Seq::empty()
    } else {
        commands_of(proposals, items, (count - 1) as nat)
            + crate::proposals::application::payload_commands(
            proposals[count - 1].payload,
            items[count - 1]@,
        )
    }
}

fn append_commands(target: &mut Vec<ProposalCommand>, source: Vec<ProposalCommand>)
    ensures
        final(target)@ == old(target)@ + source@,
{
    let ghost all = source@;
    let count: usize = source.len();
    let mut remaining: Vec<ProposalCommand> = source;
    let mut i: usize = 0;
    while i < count
        invariant
            i <= count,
            count == all.len(),
            source@ == all,
            remaining@ == all.skip(i as int),
            target@ == old(target)@ + all.take(i as int),
        decreases count - i,
    {
        let command: ProposalCommand = remaining.remove(0);
        assert(command == all[i as int]);
        assert(remaining@ =~= all.skip(i + 1));
        target.push(command);
        i = i + 1;
        assert(target@ =~= old(target)@ + all.take(i as int));
    }
    assert(all.take(i as int) =~= all);
}

/// The commands that a group of proposals comes to. Every proposal must be undecided and
/// not expired, have a payload that is a change set of its kind, and all of them
/// together must be one well-formed batch. `items` holds, for each proposal, the item
/// content that could be read from its commands.
pub fn prepare_change_set(
    proposals: &Vec<Proposal>,
    items: Vec<Vec<ReadItem>>,
    now: Instant,
) -> (result: Result<Vec<ProposalCommand>, ProposalApplicationError>)
    requires
        items@.len() == proposals@.len(),
    ensures
        match first_change_refusal(proposals@, items@, now, 0) {
            Some(refusal) => result matches Err(error) && error@ == refusal,
            None => {
                let commands = commands_of(proposals@, items@, proposals@.len());
                match result {
                    Ok(prepared) => prepared@ == commands
                        && crate::proposals::application::well_formed(commands),
                    Err(error) => {
                        &&& !crate::proposals::application::well_formed(commands)
                        &&& exists|reason: crate::proposals::application::ProposalChangeSetError|
                            #[trigger] crate::proposals::application::refused_with(commands, reason)
                                && error@ == crate::review::errors::Refusal::Validation(
                                crate::review::errors::change_set_message(reason),
                            )
                    },
                }
            },
        },
{
    let ghost all = items@;
    let mut remaining: Vec<Vec<ReadItem>> = items;
    let mut commands: Vec<ProposalCommand> = Vec::new();
    let mut k: usize = 0;
    while k < proposals.len()
        invariant
            k <= proposals.len(),
            all.len() == proposals@.len(),
            items@ == all,
            remaining@ == all.skip(k as int),
            commands@ == commands_of(proposals@, all, k as nat),
            first_change_refusal(proposals@, all, now, 0) == first_change_refusal(
                proposals@,
                all,
                now,
                k as int,
            ),
        decreases proposals.len() - k,
    {
        let proposal: &Proposal = &proposals[k];
        let read: Vec<ReadItem> = remaining.remove(0);
        assert(read == all[k as int]);
        assert(remaining@ =~= all.skip(k + 1));
        if proposal.status != ProposalStatus::Pending {
            return Err(
                ProposalApplicationError::Stale(ProposalConflictCode::ProposalNotPending),
            );
        }
        if proposal.expires_at <= now {
            return Err(ProposalApplicationError::Stale(ProposalConflictCode::ProposalExpired));
        }
        match ProposalChangeSet::from_payload(&proposal.payload, read) {
            Ok(set) => {
                match validate_kind_contract(proposal.kind, &set.commands) {
                    Ok(_) => {},
                    Err(error) => {
                        return Err(error);
                    },
                }
                append_commands(&mut commands, set.commands);
            },
            Err(error) => {
                return Err(ProposalApplicationError::Validation(change_set_error_message(error)));
            },
        }
        k = k + 1;
    }
    let ghost combined = commands@;
    match ProposalChangeSet::new(commands) {
        Ok(set) => Ok(set.commands),
        Err(error) => {
            assert(crate::proposals::application::refused_with(combined, error));
            Err(ProposalApplicationError::Validation(change_set_error_message(error)))
        },
    }
}

proof fn lemma_no_change_refusal(
    proposals: Seq<Proposal>,
    items: Seq<Vec<ReadItem>>,
    now: Instant,
    from: int,
    k: int,
)
    requires
        first_change_refusal(proposals, items, now, from) is None,
        0 <= from <= k < proposals.len(),
    ensures
        change_refusal(proposals[k], items[k]@, now) is None,
    decreases k - from,
{
    if from < k {
        lemma_no_change_refusal(proposals, items, now, from + 1, k);
    }
}

/// Every proposal of a batch that was prepared was undecided, had not expired, and has
/// commands of its kind.
pub proof fn prepared_proposals_are_open(
    proposals: Seq<Proposal>,
    items: Seq<Vec<ReadItem>>,
    now: Instant,
    k: int,
)
    requires
        first_change_refusal(proposals, items, now, 0) is None,
        0 <= k < proposals.len(),
    ensures
        proposals[k].status == ProposalStatus::Pending,
        proposals[k].expires_at > now,
        kind_allows(
            proposals[k].kind,
            crate::proposals::application::payload_commands(proposals[k].payload, items[k]@),
        ),
{
    lemma_no_change_refusal(proposals, items, now, 0, k);
}

} // verus!
