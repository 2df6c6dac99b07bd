//! What a request for a review comes to.
use vstd::prelude::*;

use crate::items::model::ItemKind;
use crate::proposals::application::{
    ProposalCommand, ProposalConflictCode, ProposalPreviewMember, ReadItem,
};
use crate::proposals::domain::{Proposal, ProposalKind, ProposalStatus};
use crate::review::errors::Refusal;
use crate::review::previews::{earliest_expiry, review_expiry};
use crate::review::requests::{
    change_refusal, commands_of, expected_revision, first_change_refusal, first_lookup_refusal,
    first_member_error, kind_allows, lookup_refusal, request_error, ProposalLookup,
};
use crate::time::{Instant, Uuid};

verus! {

/// A request for a review stands exactly if it names one to twenty proposals, none of them
/// twice and none at revision zero.
pub proof fn sound_requests_stand(members: Seq<ProposalPreviewMember>)
    ensures
        (request_error(members) is None) <==> {
            &&& 1 <= members.len() <= 20
            &&& forall|i: int|
                0 <= i < members.len() ==> (#[trigger] members[i]).expected_revision > 0
            &&& forall|i: int, j: int|
                0 <= i < members.len() && 0 <= j < members.len() && i != j ==> (
                #[trigger] members[i]).proposal_id != (#[trigger] members[j]).proposal_id
        },
{
    lemma_members(members, 0);
    if request_error(members) is None {
        crate::review::requests::accepted_request_names_proposals_once(members);
        assert forall|i: int, j: int|
            0 <= i < members.len() && 0 <= j < members.len() && i != j implies (
        #[trigger] members[i]).proposal_id != (#[trigger] members[j]).proposal_id by {
            if i < j {
                assert(members[i].proposal_id != members[j].proposal_id);
            } else {
                assert(members[j].proposal_id != members[i].proposal_id);
            }
        }
    }
}

proof fn lemma_members(members: Seq<ProposalPreviewMember>, k: int)
    requires
        0 <= k,
    ensures
        (forall|i: int| 0 <= i < members.len() ==> (#[trigger] members[i]).expected_revision > 0)
            && (forall|i: int, j: int|
            0 <= i < members.len() && 0 <= j < members.len() && i != j ==> (
            #[trigger] members[i]).proposal_id != (#[trigger] members[j]).proposal_id)
            ==> first_member_error(members, k) is None,
    decreases members.len() - k,
{
    if k < members.len() {
        lemma_members(members, k + 1);
    }
}

proof fn lemma_expected(members: Seq<ProposalPreviewMember>, k: int)
    requires
        0 <= k < members.len(),
        forall|j: int| 0 <= j < k ==> (#[trigger] members[j]).proposal_id != members[k].proposal_id,
    ensures
        expected_revision(members, members[k].proposal_id) == members[k].expected_revision,
    decreases k,
{
    if k > 0 {
        assert(members[0].proposal_id != members[k].proposal_id);
        let rest = members.skip(1);
        assert forall|j: int| 0 <= j < k - 1 implies (#[trigger] rest[j]).proposal_id
            != rest[k - 1].proposal_id by {
            assert(rest[j] == members[j + 1]);
        }
        lemma_expected(rest, k - 1);
    }
}

proof fn lemma_lookups(
    members: Seq<ProposalPreviewMember>,
    ids: Seq<Uuid>,
    lookups: Seq<ProposalLookup>,
    k: int,
)
    requires
        0 <= k,
    ensures
        (first_lookup_refusal(members, ids, lookups, k) is None) <==> forall|i: int|
            k <= i < ids.len() ==> #[trigger] lookup_refusal(members, ids[i], lookups[i]) is None,
        first_lookup_refusal(members, ids, lookups, k) is Some ==> exists|i: int|
            k <= i < ids.len() && #[trigger] lookup_refusal(members, ids[i], lookups[i])
                == first_lookup_refusal(members, ids, lookups, k),
    decreases ids.len() - k,
{
    if k < ids.len() {
        lemma_lookups(members, ids, lookups, k + 1);
        if first_lookup_refusal(members, ids, lookups, k) is None {
            assert forall|i: int| k <= i < ids.len() implies #[trigger] lookup_refusal(
                members,
                ids[i],
                lookups[i],
            ) is None by {}
        } else if lookup_refusal(members, ids[k], lookups[k]) is None {
            let i = choose|i: int|
                k + 1 <= i < ids.len() && #[trigger] lookup_refusal(members, ids[i], lookups[i])
                    == first_lookup_refusal(members, ids, lookups, k + 1);
            assert(lookup_refusal(members, ids[i], lookups[i]) is Some);
        }
    }
}

/// Proposals can be reviewed exactly if each of them was found, under its own identifier and
/// at the revision that the request expects of it.
pub proof fn reviewed_proposals_are_as_expected(
    members: Seq<ProposalPreviewMember>,
    ids: Seq<Uuid>,
    lookups: Seq<ProposalLookup>,
)
    requires
        crate::review::requests::named_once(members),
        crate::review::requests::lookup_order(members, ids),
    ensures
        (first_lookup_refusal(members, ids, lookups, 0) is None) <==> forall|i: int, k: int|
            #![trigger ids[i], members[k]]
            0 <= i < ids.len() && 0 <= k < members.len() && members[k].proposal_id == ids[i] ==> {
                &&& lookups[i] is Found
                &&& lookups[i]->Found_0.id == ids[i]
                &&& lookups[i]->Found_0.revision == members[k].expected_revision
            },
        match first_lookup_refusal(members, ids, lookups, 0) {
            Some(Refusal::NotFound) => exists|i: int|
                0 <= i < ids.len() && #[trigger] lookups[i] is Missing,
            Some(Refusal::RevisionConflict { expected, actual }) => expected != actual && exists|
                i: int,
            |
                0 <= i < ids.len() && #[trigger] lookups[i] is Found
                    && lookups[i]->Found_0.revision == actual,
            Some(Refusal::Internal) => exists|i: int|
                0 <= i < ids.len() && (#[trigger] lookups[i] is Unreadable || (lookups[i] is Found
                    && lookups[i]->Found_0.id != ids[i])),
            Some(_) => false,
            None => true,
        },
{
    lemma_lookups(members, ids, lookups, 0);
    assert forall|i: int, k: int|
        0 <= i < ids.len() && 0 <= k < members.len() && members[k].proposal_id
            == ids[i] implies #[trigger] expected_revision(members, ids[i]) == (
    #[trigger] members[k]).expected_revision by {
        lemma_expected(members, k);
    }
    if first_lookup_refusal(members, ids, lookups, 0) is None {
        assert forall|i: int, k: int|
            #![trigger ids[i], members[k]]
            0 <= i < ids.len() && 0 <= k < members.len() && members[k].proposal_id
                == ids[i] implies {
            &&& lookups[i] is Found
            &&& lookups[i]->Found_0.id == ids[i]
            &&& lookups[i]->Found_0.revision == members[k].expected_revision
        } by {
            assert(lookup_refusal(members, ids[i], lookups[i]) is None);
            assert(expected_revision(members, ids[i]) == members[k].expected_revision);
        }
    } else {
        let i = choose|i: int|
            0 <= i < ids.len() && #[trigger] lookup_refusal(members, ids[i], lookups[i])
                == first_lookup_refusal(members, ids, lookups, 0);
        assert(ids.contains(ids[i]));
        assert(crate::review::requests::named_before(members, members.len() as int, ids[i]));
        let k = choose|k: int|
            0 <= k < members.len() && (#[trigger] members[k]).proposal_id == ids[i];
        assert(expected_revision(members, ids[i]) == members[k].expected_revision);
        assert(lookup_refusal(members, ids[i], lookups[i]) is Some);
        assert(lookups[i] is Missing || lookups[i] is Unreadable || lookups[i] is Found);
    }
}

/// A kind of proposal allows the commands that belong to it: a creation allows a single new
/// item, a breakdown new items only, a calendar event new events only, a change of items or of
/// constraints no new items, and a plan or a recommendation nothing at all.
pub proof fn kinds_allow_what_they_announce(commands: Seq<ProposalCommand>, k: int)
    requires
        0 <= k < commands.len(),
    ensures
        kind_allows(ProposalKind::CreateItem, commands) <==> commands.len() == 1 && commands[k]
            is CreateItem,
        kind_allows(ProposalKind::GoalBreakdown, commands) ==> commands[k] is CreateItem,
        kind_allows(ProposalKind::CalendarEvent, commands) ==> commands[k] is CreateItem
            && commands[k]->CreateItem_item.kind == ItemKind::Event,
        kind_allows(ProposalKind::UpdateItem, commands) ==> !(commands[k] is CreateItem),
        kind_allows(ProposalKind::ConstraintChange, commands) ==> !(commands[k] is CreateItem),
        !kind_allows(ProposalKind::SchedulePlan, commands),
        !kind_allows(ProposalKind::Recommendation, commands),
        kind_allows(ProposalKind::CalendarEvent, commands) ==> kind_allows(
            ProposalKind::GoalBreakdown,
            commands,
        ),
        commands.len() == 1 ==> {
            &&& kind_allows(ProposalKind::GoalBreakdown, commands) <==> commands[0] is CreateItem
            &&& kind_allows(ProposalKind::CalendarEvent, commands) <==> commands[0] is CreateItem
                && commands[0]->CreateItem_item.kind == ItemKind::Event
            &&& kind_allows(ProposalKind::UpdateItem, commands) <==> !(commands[0] is CreateItem)
            &&& kind_allows(ProposalKind::ConstraintChange, commands) <==> !(commands[0]
                is CreateItem)
        },
{
    if kind_allows(ProposalKind::CalendarEvent, commands) {
        assert(crate::review::requests::creates_event(commands[k]));
        assert forall|j: int| 0 <= j < commands.len() implies (#[trigger] commands[j])
            is CreateItem by {
            assert(crate::review::requests::creates_event(commands[j]));
        }
    }
    if commands.len() == 1 {
        assert(commands[k] == commands[0]);
    }
}

/// Commands that a kind of proposal allows one by one it allows together, but for the single
/// creation.
pub proof fn kinds_allow_commands_together(
    kind: ProposalKind,
    a: Seq<ProposalCommand>,
    b: Seq<ProposalCommand>,
)
    requires
        kind != ProposalKind::CreateItem,
    ensures
        kind_allows(kind, a + b) == (kind_allows(kind, a) && kind_allows(kind, b)),
{
    let both = a + b;
    assert forall|k: int| 0 <= k < a.len() implies #[trigger] a[k] == both[k] by {}
    assert forall|k: int| 0 <= k < b.len() implies #[trigger] b[k] == both[a.len() + k] by {}
    if kind_allows(kind, a) && kind_allows(kind, b) {
        assert forall|k: int| 0 <= k < both.len() implies #[trigger] both[k] == (if k < a.len() {
            a[k]
        } else {
            b[k - a.len()]
        }) by {}
    }
}

/// A proposal can be part of a review exactly if it waits for a decision, has not run out, and
/// its payload is a change set of its kind. Otherwise the refusal is true.
pub proof fn open_proposals_can_be_reviewed(
    proposal: Proposal,
    items: Seq<ReadItem>,
    now: Instant,
)
    ensures
        (change_refusal(proposal, items, now) is None) <==> {
            &&& proposal.status == ProposalStatus::Pending
            &&& now < proposal.expires_at
            &&& crate::proposals::application::payload_reads(proposal.payload, items)
            &&& crate::proposals::application::well_formed(
                crate::proposals::application::payload_commands(proposal.payload, items),
            )
            &&& kind_allows(
                proposal.kind,
                crate::proposals::application::payload_commands(proposal.payload, items),
            )
        },
        match change_refusal(proposal, items, now) {
            Some(Refusal::Stale(ProposalConflictCode::ProposalNotPending)) => proposal.status
                != ProposalStatus::Pending,
            Some(Refusal::Stale(ProposalConflictCode::ProposalExpired)) => proposal.status
                == ProposalStatus::Pending && proposal.expires_at <= now,
            Some(Refusal::Validation(_)) => proposal.status == ProposalStatus::Pending && now
                < proposal.expires_at,
            Some(_) => false,
            None => true,
        },
{
}

proof fn lemma_refusals(
    proposals: Seq<Proposal>,
    items: Seq<Vec<ReadItem>>,
    now: Instant,
    k: int,
)
    requires
        0 <= k,
    ensures
        (first_change_refusal(proposals, items, now, k) is None) <==> forall|i: int|
            k <= i < proposals.len() ==> #[trigger] change_refusal(
                proposals[i],
                items[i]@,
                now,
            ) is None,
    decreases proposals.len() - k,
{
    if k < proposals.len() {
        lemma_refusals(proposals, items, now, k + 1);
        if first_change_refusal(proposals, items, now, k) is None {
            assert forall|i: int| k <= i < proposals.len() implies #[trigger] change_refusal(
                proposals[i],
                items[i]@,
                now,
            ) is None by {}
        } else {
            assert(change_refusal(proposals[k], items[k]@, now) is Some || first_change_refusal(
                proposals,
                items,
                now,
                k + 1,
            ) is Some);
        }
    }
}

/// A group of proposals is refused for one of them, and for none if none of them is refused
/// alone.
pub proof fn groups_are_refused_for_their_members(
    proposals: Seq<Proposal>,
    items: Seq<Vec<ReadItem>>,
    now: Instant,
)
    ensures
        (first_change_refusal(proposals, items, now, 0) is None) <==> forall|i: int|
            0 <= i < proposals.len() ==> #[trigger] change_refusal(
                proposals[i],
                items[i]@,
                now,
            ) is None,
{
    lemma_refusals(proposals, items, now, 0);
}

/// The commands of a group are those of its proposals, one proposal after the other: nothing
/// is left out and nothing is added.
pub proof fn commands_of_a_group_are_those_of_its_members(
    proposals: Seq<Proposal>,
    items: Seq<Vec<ReadItem>>,
    split: nat,
    count: nat,
)
    requires
        split < count <= proposals.len(),
    ensures
        ({
            let all = commands_of(proposals, items, count);
            let ahead = commands_of(proposals, items, split);
            let own = crate::proposals::application::payload_commands(
                proposals[split as int].payload,
                items[split as int]@,
            );
            &&& ahead.len() + own.len() <= all.len()
            &&& all.subrange(ahead.len() as int, (ahead.len() + own.len()) as int) == own
            &&& all.take(ahead.len() as int) == ahead
            &&& split + 1 == count ==> all.len() == ahead.len() + own.len()
            &&& commands_of(proposals, items, 0).len() == 0
        }),
    decreases count,
{
    let all = commands_of(proposals, items, count);
    let ahead = commands_of(proposals, items, split);
    let own = crate::proposals::application::payload_commands(
        proposals[split as int].payload,
        items[split as int]@,
    );
    if split + 1 == count {
        assert(all == ahead + own);
        assert(all.subrange(ahead.len() as int, (ahead.len() + own.len()) as int) =~= own);
        assert(all.take(ahead.len() as int) =~= ahead);
    } else {
        commands_of_a_group_are_those_of_its_members(
            proposals,
            items,
            split,
            (count - 1) as nat,
        );
        let before = commands_of(proposals, items, (count - 1) as nat);
        let last = crate::proposals::application::payload_commands(
            proposals[count - 1].payload,
            items[count - 1]@,
        );
        assert(all == before + last);
        assert(all.subrange(ahead.len() as int, (ahead.len() + own.len()) as int)
            =~= before.subrange(ahead.len() as int, (ahead.len() + own.len()) as int));
        assert(all.take(ahead.len() as int) =~= before.take(ahead.len() as int));
    }
}

proof fn lemma_earliest(proposals: Seq<Proposal>, count: int)
    requires
        1 <= count <= proposals.len(),
    ensures
        forall|k: int|
            0 <= k < count ==> earliest_expiry(proposals, count) <= (
            #[trigger] proposals[k]).expires_at,
        exists|k: int|
            0 <= k < count && (#[trigger] proposals[k]).expires_at == earliest_expiry(
                proposals,
                count,
            ),
    decreases count,
{
    if count > 1 {
        lemma_earliest(proposals, count - 1);
        let k = choose|k: int|
            0 <= k < count - 1 && (#[trigger] proposals[k]).expires_at == earliest_expiry(
                proposals,
                count - 1,
            );
        assert(proposals[k].expires_at == earliest_expiry(proposals, count - 1));
        assert(proposals[count - 1].expires_at >= earliest_expiry(proposals, count));
    } else {
        assert(proposals[0].expires_at == earliest_expiry(proposals, count));
    }
}

/// A review stands for fifteen minutes, unless one of its proposals runs out before: it never
/// outlives any of them, and ends no sooner than it must.
pub proof fn reviews_end_with_their_proposals(proposals: Seq<Proposal>, now: Instant, k: int)
    requires
        0 <= k < proposals.len(),
    ensures
        review_expiry(proposals, now) <= proposals[k].expires_at,
        review_expiry(proposals, now) <= now + 900_000_000_000,
        review_expiry(proposals, now) == now + 900_000_000_000 || exists|j: int|
            0 <= j < proposals.len() && (#[trigger] proposals[j]).expires_at == review_expiry(
                proposals,
                now,
            ),
{
    lemma_earliest(proposals, proposals.len() as int);
    let j = choose|j: int|
        0 <= j < proposals.len() && (#[trigger] proposals[j]).expires_at == earliest_expiry(
            proposals,
            proposals.len() as int,
        );
    assert(proposals[j].expires_at >= review_expiry(proposals, now));
}

} // verus!
