//! What the owner can rely on while a proposal is made, changed, decided on and forgotten.
use vstd::prelude::*;

use crate::json::Json;
use crate::proposals::domain::{
    created, creation_error, decided, due, edit_error, edited, normalized, DecisionKind,
    EditProposal, NewProposal, Proposal, ProposalDomainError, ProposalStatus,
};
use crate::time::{Instant, Uuid};

verus! {

/// After a change each part of a proposal is what the change names, and what it was before
/// where the change names nothing. Nothing else of it is touched.
pub proof fn edit_changes_what_it_names(proposal: Proposal, edit: EditProposal, now: Instant)
    requires
        proposal.revision < u64::MAX,
    ensures
        ({
            let after = edited(proposal, edit, now);
            &&& edit.title is Some ==> after.title == edit.title->0
            &&& edit.title is None ==> after.title == proposal.title
            &&& edit.explanation is Some ==> after.explanation == edit.explanation
            &&& edit.explanation is None ==> after.explanation == proposal.explanation
            &&& edit.payload is Some ==> after.payload == edit.payload->0
            &&& edit.payload is None ==> after.payload == proposal.payload
            &&& edit.expires_at is Some ==> after.expires_at == edit.expires_at->0
            &&& edit.expires_at is None ==> after.expires_at == proposal.expires_at
            &&& after.id == proposal.id
            &&& after.revision == proposal.revision + 1
            &&& after.submitted_by == proposal.submitted_by
            &&& after.source == proposal.source
            &&& after.source_reference == proposal.source_reference
            &&& after.kind == proposal.kind
            &&& after.status == proposal.status
            &&& after.decision_note == proposal.decision_note
            &&& after.created_at == proposal.created_at
            &&& after.updated_at == now
            &&& after.decided_at == proposal.decided_at
        }),
{
}

/// Of two changes that name the same parts only the later one can be seen: the first has no
/// trace but in the revision.
pub proof fn later_edit_prevails(
    proposal: Proposal,
    first: EditProposal,
    second: EditProposal,
    now: Instant,
    later: Instant,
)
    requires
        first.title is Some ==> second.title is Some,
        first.explanation is Some ==> second.explanation is Some,
        first.payload is Some ==> second.payload is Some,
        first.expires_at is Some ==> second.expires_at is Some,
        proposal.revision + 2 <= u64::MAX,
    ensures
        edited(edited(proposal, first, now), second, later) == (Proposal {
            revision: (proposal.revision + 2) as u64,
            ..edited(proposal, second, later)
        }),
{
}

/// A decision sets what was decided, the note on it and when it was made, and leaves the
/// content as it was proposed.
pub proof fn decision_is_recorded_as_made(
    proposal: Proposal,
    decision: DecisionKind,
    note: Option<String>,
    now: Instant,
)
    requires
        proposal.revision < u64::MAX,
    ensures
        ({
            let after = decided(proposal, decision, note, now);
            &&& (after.status == ProposalStatus::Accepted) == (decision == DecisionKind::Accept)
            &&& (after.status == ProposalStatus::Rejected) == (decision == DecisionKind::Reject)
            &&& after.decision_note == note
            &&& after.decided_at == Some(now)
            &&& after.updated_at == now
            &&& after.revision == proposal.revision + 1
            &&& after.id == proposal.id
            &&& after.submitted_by == proposal.submitted_by
            &&& after.source == proposal.source
            &&& after.source_reference == proposal.source_reference
            &&& after.kind == proposal.kind
            &&& after.title == proposal.title
            &&& after.explanation == proposal.explanation
            &&& after.payload == proposal.payload
            &&& after.created_at == proposal.created_at
            &&& after.expires_at == proposal.expires_at
        }),
{
}

/// A proposal that is made waits for a decision, under its first revision and with the content
/// that was given.
pub proof fn proposal_starts_as_it_was_submitted(id: Uuid, input: NewProposal, now: Instant)
    ensures
        ({
            let made = created(id, input, now);
            &&& made.id == id
            &&& made.revision == 1
            &&& made.status == ProposalStatus::Pending
            &&& made.submitted_by == input.submitted_by
            &&& made.source == input.source
            &&& made.source_reference == input.source_reference
            &&& made.kind == input.kind
            &&& made.title == input.title
            &&& made.explanation == input.explanation
            &&& made.payload == input.payload
            &&& made.expires_at == input.expires_at
            &&& made.created_at == now
            &&& made.updated_at == now
            &&& made.decision_note is None
            &&& made.decided_at is None
        }),
        creation_error(input, now) is None ==> !due(created(id, input, now), now),
{
}

/// Whether a text says something within `limit` characters, none of them a control code.
pub open spec fn says_something(text: Seq<char>, limit: nat) -> bool {
    &&& exists|i: int| 0 <= i < text.len() && !crate::text::white_space(#[trigger] text[i])
    &&& plain_within(text, limit)
}

/// Whether a text has no more than `limit` characters, none of them a control code.
pub open spec fn plain_within(text: Seq<char>, limit: nat) -> bool {
    &&& text.len() <= limit
    &&& forall|i: int|
        0 <= i < text.len() ==> !crate::text::control_char(#[trigger] text[i])
}

/// Whether a document is an object without control codes that does not nest too deeply.
pub open spec fn sound_payload(payload: Json) -> bool {
    payload is Object && !crate::json::unsupported_text(payload, 0)
}

/// A proposal is taken exactly if its texts say something within their limits, its payload is
/// a sound object, and it does not expire at once.
pub proof fn sound_proposals_are_taken(input: NewProposal, now: Instant)
    ensures
        (creation_error(input, now) is None) <==> {
            &&& says_something(input.submitted_by@, 500)
            &&& says_something(input.title@, 200)
            &&& input.source_reference is Some ==> plain_within(input.source_reference->0@, 500)
            &&& input.explanation is Some ==> plain_within(input.explanation->0@, 4_000)
            &&& sound_payload(input.payload)
            &&& now < input.expires_at
        },
{
    lemma_texts(input.submitted_by@);
    lemma_texts(input.title@);
    if input.source_reference is Some {
        lemma_texts(input.source_reference->0@);
    }
    if input.explanation is Some {
        lemma_texts(input.explanation->0@);
    }
}

proof fn lemma_texts(text: Seq<char>)
    ensures
        crate::text::blank(text) == !exists|i: int|
            0 <= i < text.len() && !crate::text::white_space(#[trigger] text[i]),
        crate::text::has_control(text) == !forall|i: int|
            0 <= i < text.len() ==> !crate::text::control_char(#[trigger] text[i]),
{
}

/// A change of a waiting proposal is taken exactly if it names something, its texts say
/// something within their limits, its payload is a sound object, and it does not let the
/// proposal expire at once.
pub proof fn sound_edits_are_taken(edit: EditProposal, now: Instant)
    ensures
        (edit_error(edit, now) is None) <==> {
            &&& edit.title is Some || edit.explanation is Some || edit.payload is Some
                || edit.expires_at is Some
            &&& edit.title is Some ==> says_something(edit.title->0@, 200)
            &&& edit.explanation is Some ==> says_something(edit.explanation->0@, 4_000)
            &&& edit.payload is Some ==> sound_payload(edit.payload->0)
            &&& edit.expires_at is Some ==> now < edit.expires_at->0
        },
{
    if edit.title is Some {
        lemma_texts(edit.title->0@);
    }
    if edit.explanation is Some {
        lemma_texts(edit.explanation->0@);
    }
}

/// A note on a decision is taken exactly if it has no more than a thousand characters, none of
/// them a control code.
pub proof fn plain_notes_are_taken(field: &'static str, note: Option<String>)
    ensures
        (crate::proposals::domain::optional_text_error(
            field,
            note,
            crate::proposals::domain::MAX_DECISION_NOTE_LENGTH,
        ) is None) <==> (note is Some ==> plain_within(note->0@, 1_000)),
{
    if note is Some {
        lemma_texts(note->0@);
    }
}

/// The refusal of a proposal is true: a field that is said to be missing is blank, one that is
/// said to be too long exceeds the limit that is given, and so on.
pub proof fn refusal_of_a_proposal_is_true(input: NewProposal, now: Instant)
    ensures
        match creation_error(input, now) {
            None => true,
            Some(ProposalDomainError::Required(field)) => {
                ||| field == "submitted_by" && crate::text::blank(input.submitted_by@)
                ||| field == "title" && crate::text::blank(input.title@)
            },
            Some(ProposalDomainError::TooLong { field, max_length }) => {
                ||| field == "submitted_by" && input.submitted_by@.len() > max_length
                ||| field == "title" && input.title@.len() > max_length
                ||| field == "source_reference" && input.source_reference is Some
                    && input.source_reference->0@.len() > max_length
                ||| field == "explanation" && input.explanation is Some
                    && input.explanation->0@.len() > max_length
            },
            Some(ProposalDomainError::UnsupportedText(field)) => {
                ||| field == "submitted_by" && crate::text::has_control(input.submitted_by@)
                ||| field == "title" && crate::text::has_control(input.title@)
                ||| field == "source_reference" && input.source_reference is Some
                    && crate::text::has_control(input.source_reference->0@)
                ||| field == "explanation" && input.explanation is Some
                    && crate::text::has_control(input.explanation->0@)
                ||| field == "payload" && crate::json::unsupported_text(input.payload, 0)
            },
            Some(ProposalDomainError::PayloadMustBeObject) => !(input.payload is Object),
            Some(ProposalDomainError::ExpirationMustBeFuture) => input.expires_at <= now,
            Some(_) => false,
        },
{
}

/// The refusal of a change is true: what is said to be missing, too long or unsupported is so.
pub proof fn refusal_of_an_edit_is_true(edit: EditProposal, now: Instant)
    ensures
        match edit_error(edit, now) {
            None => true,
            Some(ProposalDomainError::EmptyEdit) => edit.title is None && edit.explanation is None
                && edit.payload is None && edit.expires_at is None,
            Some(ProposalDomainError::Required(field)) => {
                ||| field == "title" && edit.title is Some && crate::text::blank(edit.title->0@)
                ||| field == "explanation" && edit.explanation is Some && crate::text::blank(
                    edit.explanation->0@,
                )
            },
            Some(ProposalDomainError::TooLong { field, max_length }) => {
                ||| field == "title" && edit.title is Some && edit.title->0@.len() > max_length
                ||| field == "explanation" && edit.explanation is Some
                    && edit.explanation->0@.len() > max_length
            },
            Some(ProposalDomainError::UnsupportedText(field)) => {
                ||| field == "title" && edit.title is Some && crate::text::has_control(
                    edit.title->0@,
                )
                ||| field == "explanation" && edit.explanation is Some && crate::text::has_control(
                    edit.explanation->0@,
                )
                ||| field == "payload" && edit.payload is Some && crate::json::unsupported_text(
                    edit.payload->0,
                    0,
                )
            },
            Some(ProposalDomainError::PayloadMustBeObject) => edit.payload is Some && !(
            edit.payload->0 is Object),
            Some(ProposalDomainError::ExpirationMustBeFuture) => edit.expires_at is Some
                && edit.expires_at->0 <= now,
            Some(_) => false,
        },
{
}

/// A proposal expires at the instant it names, not before and not later, if it still waits
/// then. It keeps its content, and a proposal that was decided on never expires.
pub proof fn proposals_expire_on_time(proposal: Proposal, now: Instant)
    requires
        proposal.revision < u64::MAX,
    ensures
        proposal.status == ProposalStatus::Pending ==> (normalized(proposal, now).status
            == ProposalStatus::Expired) == (proposal.expires_at <= now),
        now < proposal.expires_at || proposal.status != ProposalStatus::Pending ==> normalized(
            proposal,
            now,
        ) == proposal,
        normalized(proposal, now).id == proposal.id,
        normalized(proposal, now).title == proposal.title,
        normalized(proposal, now).explanation == proposal.explanation,
        normalized(proposal, now).payload == proposal.payload,
        normalized(proposal, now).source == proposal.source,
        normalized(proposal, now).source_reference == proposal.source_reference,
        normalized(proposal, now).submitted_by == proposal.submitted_by,
        normalized(proposal, now).kind == proposal.kind,
        normalized(proposal, now).decision_note == proposal.decision_note,
        normalized(proposal, now).decided_at == proposal.decided_at,
        normalized(proposal, now).created_at == proposal.created_at,
        normalized(proposal, now).expires_at == proposal.expires_at,
        normalized(proposal, now).status != proposal.status ==> normalized(proposal, now).updated_at
            == now && normalized(proposal, now).revision == proposal.revision + 1,
{
}

} // verus!
