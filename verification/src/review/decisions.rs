//! The decisions that a review, an application and its undoing begin with, one after the
//! other.
use vstd::prelude::*;

use crate::items::model::Item;
use crate::proposals::application::{
    ProposalCommand, ProposalPreviewRequest, ProposalUndoRequest, ReadItem,
};
use crate::proposals::domain::{Proposal, ProposalStatus};
use crate::review::applications::{
    check_review, check_review_time, reviewed_proposals, stored_application, LockedApplicationRow,
    StoredApplication,
};
use crate::review::conflicts::reject_provider_managed_items;
use crate::review::errors::ProposalApplicationError;
use crate::review::hashes::StoredPreviewMember;
use crate::review::previews::{preview_expiry, StoredPreview};
use crate::review::requests::{
    check_active_previews, prepare_change_set, requested_proposals, validate_preview_request,
    ProposalLookup,
};
use crate::review::undoing::{check_undo, validate_fences, StoredFence};
use crate::time::{Instant, Uuid};

verus! {

/// The proposals of a change set, and the commands that they come to.
#[derive(Debug)]
pub struct PreparedChangeSet {
    pub proposals: Vec<Proposal>,
    pub commands: Vec<ProposalCommand>,
}

/// Whether `proposals` are what was looked up for the identifiers `named`, in their order.
pub open spec fn all_looked_up(
    named: Seq<Uuid>,
    ids: Seq<Uuid>,
    lookups: Seq<ProposalLookup>,
    proposals: Seq<Proposal>,
) -> bool {
    &&& proposals.len() == named.len()
    &&& forall|k: int|
        0 <= k < named.len() ==> crate::review::requests::looked_up(
            ids,
            lookups,
            named[k],
            #[trigger] proposals[k],
        )
}

/// Whether proposals come to a change set.
pub open spec fn change_set_stands(
    proposals: Seq<Proposal>,
    items: Seq<Vec<ReadItem>>,
    now: Instant,
) -> bool {
    &&& crate::review::requests::first_change_refusal(proposals, items, now, 0) is None
    &&& crate::proposals::application::well_formed(
        crate::review::requests::commands_of(proposals, items, proposals.len()),
    )
}

/// Whether `refusal` is why proposals come to no change set.
pub open spec fn change_set_refused(
    proposals: Seq<Proposal>,
    items: Seq<Vec<ReadItem>>,
    now: Instant,
    refusal: crate::review::errors::Refusal,
) -> bool {
    match crate::review::requests::first_change_refusal(proposals, items, now, 0) {
        Some(first) => refusal == first,
        None => {
            let commands = crate::review::requests::commands_of(proposals, items, proposals.len());
            &&& !crate::proposals::application::well_formed(commands)
            &&& exists|reason: crate::proposals::application::ProposalChangeSetError| #[trigger]
                crate::proposals::application::refused_with(commands, reason) && refusal
                    == crate::review::errors::Refusal::Validation(
                    crate::review::errors::change_set_message(reason),
                )
        },
    }
}

/// The proposals that a request names.
pub open spec fn requested_names(request: ProposalPreviewRequest) -> Seq<Uuid> {
    request.proposals@.map_values(
        |member: crate::proposals::application::ProposalPreviewMember| member.proposal_id,
    )
}

/// The proposals that a stored review names.
pub open spec fn reviewed_names(members: Seq<StoredPreviewMember>) -> Seq<Uuid> {
    members.map_values(|member: StoredPreviewMember| member.proposal_id)
}

proof fn lemma_earliest_expiry(proposals: Seq<Proposal>, now: Instant, count: int)
    requires
        1 <= count <= proposals.len(),
        forall|k: int| 0 <= k < count ==> (#[trigger] proposals[k]).expires_at > now,
    ensures
        crate::review::previews::earliest_expiry(proposals, count) > now,
    decreases count,
{
    if count > 1 {
        lemma_earliest_expiry(proposals, now, count - 1);
    }
}

proof fn lemma_open_proposals_leave_time(
    proposals: Seq<Proposal>,
    items: Seq<Vec<ReadItem>>,
    now: Instant,
)
    requires
        proposals.len() > 0,
        crate::review::requests::first_change_refusal(proposals, items, now, 0) is None,
    ensures
        crate::review::previews::review_expiry(proposals, now) > now,
{
    assert forall|k: int| 0 <= k < proposals.len() implies (
    #[trigger] proposals[k]).expires_at > now by {
        crate::review::requests::prepared_proposals_are_open(proposals, items, now, k);
    }
    lemma_earliest_expiry(proposals, now, proposals.len() as int);
}

/// Begins a review: the proposals that it is about, the commands that they come to and
/// the instant until which it stands.
///
/// `active` is how many reviews of the owner are open. `ids` are the proposals in the
/// order in which they are looked up, `lookups` what was found, and `items` the item
/// content that could be read from the commands of each proposal, in the order of the
/// request.
pub fn begin_review(
    request: &ProposalPreviewRequest,
    active: i64,
    ids: &Vec<Uuid>,
    lookups: Vec<ProposalLookup>,
    items: Vec<Vec<ReadItem>>,
    now: Instant,
) -> (result: Result<(PreparedChangeSet, Instant), ProposalApplicationError>)
    requires
        crate::review::requests::lookup_order(request.proposals@, ids@),
        lookups@.len() == ids@.len(),
        items@.len() == request.proposals@.len(),
        crate::review::previews::review_time(now),
    ensures
        match crate::review::requests::request_error(request.proposals@) {
            Some(text) => result matches Err(error) && error@
                == crate::review::errors::Refusal::Validation(text),
            None => if active >= crate::review::requests::MAX_ACTIVE_PREVIEWS {
                result matches Err(error) && error@ == crate::review::errors::Refusal::Validation(
                    "too many active proposal previews; wait for an existing preview to expire"@,
                )
            } else {
                match crate::review::requests::first_lookup_refusal(
                    request.proposals@,
                    ids@,
                    lookups@,
                    0,
                ) {
                    Some(refusal) => result matches Err(error) && error@ == refusal,
                    None => match result {
                        Ok((set, expires_at)) => {
                            &&& all_looked_up(
                                requested_names(*request),
                                ids@,
                                lookups@,
                                set.proposals@,
                            )
                            &&& change_set_stands(set.proposals@, items@, now)
                            &&& set.commands@ == crate::review::requests::commands_of(
                                set.proposals@,
                                items@,
                                set.proposals@.len(),
                            )
                            &&& expires_at == crate::review::previews::review_expiry(
                                set.proposals@,
                                now,
                            )
                            &&& expires_at > now
                        },
                        Err(error) => exists|proposals: Seq<Proposal>|
                            all_looked_up(requested_names(*request), ids@, lookups@, proposals)
                                && #[trigger] change_set_refused(proposals, items@, now, error@),
                    },
                }
            },
        },
{
    validate_preview_request(request)?;
    check_active_previews(active)?;
    proof {
        crate::review::requests::accepted_request_names_proposals_once(request.proposals@);
    }
    let ghost found = lookups@;
    let ghost read = items@;
    let proposals: Vec<Proposal> = requested_proposals(&request.proposals, ids, lookups)?;
    proof {
        assert forall|k: int| 0 <= k < proposals@.len() implies crate::review::requests::looked_up(
            ids@,
            found,
            requested_names(*request)[k],
            #[trigger] proposals@[k],
        ) by {
            assert(request.proposals@[k].proposal_id == requested_names(*request)[k]);
        }
        assert(all_looked_up(requested_names(*request), ids@, found, proposals@));
    }
    let commands: Vec<ProposalCommand> = match prepare_change_set(&proposals, items, now) {
        Ok(commands) => commands,
        Err(error) => {
            assert(change_set_refused(proposals@, read, now, error@));
            return Err(error);
        },
    };
    match preview_expiry(&proposals, now) {
        Ok(expires_at) => Ok((PreparedChangeSet { proposals, commands }, expires_at)),
        Err(error) => {
            proof {
                lemma_open_proposals_leave_time(proposals@, read, now);
            }
            Err(error)
        },
    }
}

/// Begins the application of a review: it must be the one that was approved, be
/// applicable and not have expired, and its proposals must still be those that were
/// reviewed and come to a change set.
///
/// `ids`, `lookups` and `documents` are the proposals in the order in which they are
/// looked up, what was found, and the payloads as they are written down. `items` is the
/// item content that could be read from the commands of each proposal, in the order of
/// the review.
pub fn begin_application(
    preview: &StoredPreview,
    expected_hash: &[u8; 32],
    members: &Vec<StoredPreviewMember>,
    ids: &Vec<Uuid>,
    lookups: Vec<ProposalLookup>,
    documents: &Vec<Option<Vec<u8>>>,
    items: Vec<Vec<ReadItem>>,
    now: Instant,
) -> (result: Result<PreparedChangeSet, ProposalApplicationError>)
    requires
        crate::review::requests::lookup_order(
            crate::review::applications::as_requested(members@),
            ids@,
        ),
        lookups@.len() == ids@.len(),
        documents@.len() == ids@.len(),
        items@.len() == members@.len(),
    ensures
        if preview.preview_hash@ != expected_hash@ {
            result matches Err(error) && error@ == crate::review::errors::Refusal::Stale(
                crate::proposals::application::ProposalConflictCode::PreviewMismatch,
            )
        } else if !preview.can_apply {
            result matches Err(error) && error@ == crate::review::errors::Refusal::Stale(
                crate::proposals::application::ProposalConflictCode::PreviewNotApplicable,
            )
        } else {
            match crate::review::applications::first_reviewed_refusal(
                members@,
                ids@,
                lookups@,
                documents@,
                0,
            ) {
                Some(refusal) => result matches Err(error) && error@ == refusal,
                None => if !crate::review::requests::named_once(
                    crate::review::applications::as_requested(members@),
                ) {
                    result matches Err(error) && error@ == crate::review::errors::Refusal::Internal
                } else if preview.expires_at <= now {
                    result matches Err(error) && error@ == crate::review::errors::Refusal::Stale(
                        crate::proposals::application::ProposalConflictCode::PreviewExpired,
                    )
                } else {
                    match result {
                        Ok(set) => {
                            &&& all_looked_up(
                                reviewed_names(members@),
                                ids@,
                                lookups@,
                                set.proposals@,
                            )
                            &&& change_set_stands(set.proposals@, items@, now)
                            &&& set.commands@ == crate::review::requests::commands_of(
                                set.proposals@,
                                items@,
                                set.proposals@.len(),
                            )
                        },
                        Err(error) => exists|proposals: Seq<Proposal>|
                            all_looked_up(reviewed_names(members@), ids@, lookups@, proposals)
                                && #[trigger] change_set_refused(proposals, items@, now, error@),
                    }
                },
            }
        },
{
    check_review(preview, expected_hash)?;
    let ghost found = lookups@;
    let ghost read = items@;
    let proposals: Vec<Proposal> = reviewed_proposals(members, ids, lookups, documents)?;
    proof {
        assert forall|k: int| 0 <= k < proposals@.len() implies crate::review::requests::looked_up(
            ids@,
            found,
            reviewed_names(members@)[k],
            #[trigger] proposals@[k],
        ) by {
            assert(members@[k].proposal_id == reviewed_names(members@)[k]);
        }
        assert(all_looked_up(reviewed_names(members@), ids@, found, proposals@));
    }
    check_review_time(preview, now)?;
    match prepare_change_set(&proposals, items, now) {
        Ok(commands) => Ok(PreparedChangeSet { proposals, commands }),
        Err(error) => {
            assert(change_set_refused(proposals@, read, now, error@));
            Err(error)
        },
    }
}

/// Begins the undoing of an application: it must exist, not be undone yet, be at the
/// revision that the request names and not be too old, its items must be as it left
/// them, and none of them may be managed elsewhere by now.
///
/// `row` is the application as it is stored, `fences` and `items` are the states of the
/// items that it left and the items as they are, and `managed` those of them that are
/// managed elsewhere.
pub fn begin_undo(
    row: Option<LockedApplicationRow>,
    request: &ProposalUndoRequest,
    now: Instant,
    fences: &Vec<StoredFence>,
    items: &Vec<Item>,
    managed: &Vec<Uuid>,
) -> (result: Result<StoredApplication, ProposalApplicationError>)
    ensures
        match row {
            None => result matches Err(error) && error@ == crate::review::errors::Refusal::NotFound,
            Some(found) => if !crate::review::applications::locked_row_sound(found) {
                result matches Err(error) && error@ == crate::review::errors::Refusal::Internal
            } else {
                exists|application: StoredApplication|
                    {
                        &&& #[trigger] crate::review::applications::locked_row_holds(
                            found,
                            application,
                        )
                        &&& match undo_refused(application, *request, now, fences@, items@, managed@) {
                            Some(refusal) => result matches Err(error) && error@ == refusal,
                            None => result == Ok::<StoredApplication, ProposalApplicationError>(
                                application,
                            ),
                        }
                    }
            },
        },
{
    let application: StoredApplication = stored_application(row)?;
    assert(crate::review::applications::locked_row_holds(row->0, application));
    check_undo(&application, request, now)?;
    validate_fences(fences, items)?;
    reject_provider_managed_items(managed)?;
    Ok(application)
}

/// Why an application cannot be undone, the first reason first.
pub open spec fn undo_refused(
    application: StoredApplication,
    request: ProposalUndoRequest,
    now: Instant,
    fences: Seq<StoredFence>,
    items: Seq<Item>,
    managed: Seq<Uuid>,
) -> Option<crate::review::errors::Refusal> {
    match crate::review::undoing::undo_refusal(
        application,
        request.expected_application_revision,
        now,
    ) {
        Some(refusal) => Some(refusal),
        None => match crate::review::undoing::first_fence_refusal(fences, items, 0) {
            Some(refusal) => Some(refusal),
            None => if managed.len() > 0 {
                Some(
                    crate::review::errors::Refusal::Stale(
                        crate::proposals::application::ProposalConflictCode::ProviderManagedItem,
                    ),
                )
            } else {
                None
            },
        },
    }
}

proof fn lemma_reviewed(
    members: Seq<StoredPreviewMember>,
    ids: Seq<Uuid>,
    lookups: Seq<ProposalLookup>,
    documents: Seq<Option<Vec<u8>>>,
    from: int,
    k: int,
)
    requires
        crate::review::applications::first_reviewed_refusal(members, ids, lookups, documents, from)
            is None,
        0 <= from <= k < ids.len(),
    ensures
        crate::review::applications::reviewed_refusal(members, ids[k], lookups[k], documents[k])
            is None,
    decreases k - from,
{
    if from < k {
        lemma_reviewed(members, ids, lookups, documents, from + 1, k);
    }
}

proof fn lemma_member_of_its_proposal(members: Seq<StoredPreviewMember>, k: int)
    requires
        crate::review::requests::named_once(crate::review::applications::as_requested(members)),
        0 <= k < members.len(),
    ensures
        crate::review::applications::reviewed_payload(members, members[k].proposal_id) == Some(
            members[k].payload_hash@,
        ),
        crate::review::requests::expected_revision(
            crate::review::applications::as_requested(members),
            members[k].proposal_id,
        ) == members[k].proposal_revision,
    decreases members.len(),
{
    let requested = crate::review::applications::as_requested(members);
    let rest = members.skip(1);
    assert(requested.skip(1) =~= crate::review::applications::as_requested(rest));
    assert(requested[0].proposal_id == members[0].proposal_id);
    if k > 0 {
        assert(requested[0].proposal_id != requested[k].proposal_id);
        assert(rest[k - 1] == members[k]);
        assert forall|i: int, j: int|
            0 <= i < j < requested.skip(1).len() implies (
        #[trigger] requested.skip(1)[i]).proposal_id != (
        #[trigger] requested.skip(1)[j]).proposal_id by {
            assert(requested[i + 1].proposal_id != requested[j + 1].proposal_id);
        }
        lemma_member_of_its_proposal(rest, k - 1);
    }
}

/// What is applied is what was reviewed: every proposal of an application that begins is
/// undecided, at the revision at which it was reviewed, and the digest of its payload is
/// the one that was kept of it then.
pub proof fn applied_proposals_are_those_reviewed(
    members: Seq<StoredPreviewMember>,
    ids: Seq<Uuid>,
    lookups: Seq<ProposalLookup>,
    documents: Seq<Option<Vec<u8>>>,
    proposals: Seq<Proposal>,
    k: int,
)
    requires
        crate::review::requests::named_once(crate::review::applications::as_requested(members)),
        crate::ids::increasing(ids),
        crate::review::applications::first_reviewed_refusal(members, ids, lookups, documents, 0)
            is None,
        all_looked_up(reviewed_names(members), ids, lookups, proposals),
        0 <= k < members.len(),
    ensures
        proposals[k].id == members[k].proposal_id,
        proposals[k].status == ProposalStatus::Pending,
        proposals[k].revision == members[k].proposal_revision,
        exists|place: int|
            0 <= place < ids.len() && #[trigger] ids[place] == members[k].proposal_id
                && documents[place] is Some && crate::outside::sha256_of(documents[place]->0@)
                == members[k].payload_hash@,
{
    assert(crate::review::requests::looked_up(ids, lookups, reviewed_names(members)[k], proposals[k]));
    let place = choose|place: int|
        0 <= place < ids.len() && #[trigger] ids[place] == reviewed_names(members)[k]
            && lookups[place] == ProposalLookup::Found(proposals[k]);
    lemma_reviewed(members, ids, lookups, documents, 0, place);
    lemma_member_of_its_proposal(members, k);
    assert(ids[place] == members[k].proposal_id);
}

} // verus!
