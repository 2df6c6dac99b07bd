//! Proposals: what an assistant suggests, and how the owner decides on it.
use vstd::prelude::*;

use crate::json::{json_has_unsupported_text, Json};
use crate::outside::random_uuid;
use crate::text::{contains_control, is_blank, longer_than};
use crate::time::{Instant, Uuid};

verus! {

pub const MAX_TITLE_LENGTH: usize = 200;

pub const MAX_EXPLANATION_LENGTH: usize = 4_000;

pub const MAX_SOURCE_REFERENCE_LENGTH: usize = 500;

pub const MAX_DECISION_NOTE_LENGTH: usize = 1_000;

/// Who made a proposal.
#[derive(Clone, Copy, Debug, PartialEq, Eq, Structural)]
pub enum ProposalSource {
    AppAssistant,
    ChatGpt,
    Codex,
    ExternalMcp,
}

/// What a proposal would do.
#[derive(Clone, Copy, Debug, PartialEq, Eq, Structural)]
pub enum ProposalKind {
    CreateItem,
    UpdateItem,
    GoalBreakdown,
    ConstraintChange,
    CalendarEvent,
    SchedulePlan,
    Recommendation,
}

/// Whether a proposal still waits for a decision.
#[derive(Clone, Copy, Debug, PartialEq, Eq, Structural)]
pub enum ProposalStatus {
    Pending,
    Accepted,
    Rejected,
    Expired,
}

/// What the owner decides.
#[derive(Clone, Copy, Debug, PartialEq, Eq, Structural)]
pub enum DecisionKind {
    Accept,
    Reject,
}

/// A proposal.
#[derive(Debug)]
pub struct Proposal {
    pub id: Uuid,
    pub revision: u64,
    pub submitted_by: String,
    pub source: ProposalSource,
    pub source_reference: Option<String>,
    pub kind: ProposalKind,
    pub status: ProposalStatus,
    pub title: String,
    pub explanation: Option<String>,
    /// The content that belongs to the kind. It is an object, so that schemas of
    /// their own can be added for each kind.
    pub payload: Json,
    pub decision_note: Option<String>,
    pub created_at: Instant,
    pub updated_at: Instant,
    pub expires_at: Instant,
    pub decided_at: Option<Instant>,
}

/// The content of a proposal that is to be made.
#[derive(Debug)]
pub struct NewProposal {
    pub submitted_by: String,
    pub source: ProposalSource,
    pub source_reference: Option<String>,
    pub kind: ProposalKind,
    pub title: String,
    pub explanation: Option<String>,
    pub payload: Json,
    pub expires_at: Instant,
}

/// The parts of a proposal that are to be changed.
#[derive(Debug)]
pub struct EditProposal {
    pub title: Option<String>,
    pub explanation: Option<String>,
    pub payload: Option<Json>,
    pub expires_at: Option<Instant>,
}

/// Why a proposal, or a change of it, is refused.
#[derive(Clone, Copy, Debug, PartialEq, Eq)]
pub enum ProposalDomainError {
    Required(&'static str),
    TooLong { field: &'static str, max_length: usize },
    UnsupportedText(&'static str),
    PayloadMustBeObject,
    ExpirationMustBeFuture,
    EmptyEdit,
    NotPending(ProposalStatus),
}

impl Default for EditProposal {
    fn default() -> (result: Self)
        ensures
            result.title is None,
            result.explanation is None,
            result.payload is None,
            result.expires_at is None,
    {
        EditProposal { title: None, explanation: None, payload: None, expires_at: None }
    }
}

/// Whether two proposals agree in every field.
pub open spec fn proposal_same(a: Proposal, b: Proposal) -> bool {
    &&& a.id == b.id
    &&& a.revision == b.revision
    &&& a.submitted_by@ == b.submitted_by@
    &&& a.source == b.source
    &&& crate::text::optional_text(a.source_reference) == crate::text::optional_text(
        b.source_reference,
    )
    &&& a.kind == b.kind
    &&& a.status == b.status
    &&& a.title@ == b.title@
    &&& crate::text::optional_text(a.explanation) == crate::text::optional_text(b.explanation)
    &&& crate::json::json_same(a.payload, b.payload)
    &&& crate::text::optional_text(a.decision_note) == crate::text::optional_text(b.decision_note)
    &&& a.created_at == b.created_at
    &&& a.updated_at == b.updated_at
    &&& a.expires_at == b.expires_at
    &&& a.decided_at == b.decided_at
}

/// Every proposal agrees with itself.
pub proof fn proposal_same_reflexive(a: Proposal)
    ensures
        proposal_same(a, a),
{
    crate::json::json_same_reflexive(a.payload);
}

/// Agreement of proposals goes both ways.
pub proof fn proposal_same_symmetric(a: Proposal, b: Proposal)
    requires
        proposal_same(a, b),
    ensures
        proposal_same(b, a),
{
    crate::json::json_same_symmetric(a.payload, b.payload);
}

/// Proposals that agree with a third one agree.
pub proof fn proposal_same_transitive(a: Proposal, b: Proposal, c: Proposal)
    requires
        proposal_same(a, b),
        proposal_same(b, c),
    ensures
        proposal_same(a, c),
{
    crate::json::json_same_transitive(a.payload, b.payload, c.payload);
}

impl Clone for Proposal {
    fn clone(&self) -> (result: Self)
        ensures
            proposal_same(*self, result),
    {
        Proposal {
            id: self.id,
            revision: self.revision,
            submitted_by: self.submitted_by.clone(),
            source: self.source,
            source_reference: self.source_reference.clone(),
            kind: self.kind,
            status: self.status,
            title: self.title.clone(),
            explanation: self.explanation.clone(),
            payload: self.payload.clone(),
            decision_note: self.decision_note.clone(),
            created_at: self.created_at,
            updated_at: self.updated_at,
            expires_at: self.expires_at,
            decided_at: self.decided_at,
        }
    }
}

/// Why a text cannot stand in `field`: it is too long, or holds a control code.
pub open spec fn length_error(
    field: &'static str,
    value: Seq<char>,
    max_length: usize,
) -> Option<ProposalDomainError> {
    if value.len() > max_length {
        Some(ProposalDomainError::TooLong { field, max_length })
    } else if crate::text::has_control(value) {
        Some(ProposalDomainError::UnsupportedText(field))
    } else {
        None
    }
}

/// Why a text cannot stand in the required `field`.
pub open spec fn required_text_error(
    field: &'static str,
    value: Seq<char>,
    max_length: usize,
) -> Option<ProposalDomainError> {
    if crate::text::blank(value) {
        Some(ProposalDomainError::Required(field))
    } else {
        length_error(field, value, max_length)
    }
}

/// Why a text cannot stand in the optional `field`.
pub open spec fn optional_text_error(
    field: &'static str,
    value: Option<String>,
    max_length: usize,
) -> Option<ProposalDomainError> {
    match value {
        Some(text) => length_error(field, text@, max_length),
        None => None,
    }
}

/// Why a document cannot be a payload.
pub open spec fn payload_error(payload: Json) -> Option<ProposalDomainError> {
    if !(payload is Object) {
        Some(ProposalDomainError::PayloadMustBeObject)
    } else if crate::json::unsupported_text(payload, 0) {
        Some(ProposalDomainError::UnsupportedText("payload"))
    } else {
        None
    }
}

/// The first of two refusals.
pub open spec fn first_error(
    a: Option<ProposalDomainError>,
    b: Option<ProposalDomainError>,
) -> Option<ProposalDomainError> {
    match a {
        Some(_) => a,
        None => b,
    }
}

/// Why a proposal with this content is refused at `now`, if it is.
pub open spec fn creation_error(input: NewProposal, now: Instant) -> Option<ProposalDomainError> {
    first_error(
        required_text_error("submitted_by", input.submitted_by@, MAX_SOURCE_REFERENCE_LENGTH),
        first_error(
            required_text_error("title", input.title@, MAX_TITLE_LENGTH),
            first_error(
                optional_text_error(
                    "source_reference",
                    input.source_reference,
                    MAX_SOURCE_REFERENCE_LENGTH,
                ),
                first_error(
                    optional_text_error("explanation", input.explanation, MAX_EXPLANATION_LENGTH),
                    first_error(
                        payload_error(input.payload),
                        if input.expires_at <= now {
                            Some(ProposalDomainError::ExpirationMustBeFuture)
                        } else {
                            None
                        },
                    ),
                ),
            ),
        ),
    )
}

/// The pending proposal with this content.
pub open spec fn created(id: Uuid, input: NewProposal, now: Instant) -> Proposal {
    Proposal {
        id,
        revision: 1,
        submitted_by: input.submitted_by,
        source: input.source,
        source_reference: input.source_reference,
        kind: input.kind,
        status: ProposalStatus::Pending,
        title: input.title,
        explanation: input.explanation,
        payload: input.payload,
        decision_note: None,
        created_at: now,
        updated_at: now,
        expires_at: input.expires_at,
        decided_at: None,
    }
}

/// Whether a proposal has waited for a decision for too long.
pub open spec fn due(proposal: Proposal, now: Instant) -> bool {
    proposal.status == ProposalStatus::Pending && proposal.expires_at <= now
}

/// The proposal as it is at `now`: expired, if it is due.
pub open spec fn normalized(proposal: Proposal, now: Instant) -> Proposal {
    if due(proposal, now) {
        Proposal {
            status: ProposalStatus::Expired,
            revision: (proposal.revision + 1) as u64,
            updated_at: now,
            ..proposal
        }
    } else {
        proposal
    }
}

/// Why a change of a pending proposal is refused at `now`, if it is.
pub open spec fn edit_error(edit: EditProposal, now: Instant) -> Option<ProposalDomainError> {
    if edit.title is None && edit.explanation is None && edit.payload is None && edit.expires_at
        is None {
        Some(ProposalDomainError::EmptyEdit)
    } else {
        first_error(
            match edit.title {
                Some(title) => required_text_error("title", title@, MAX_TITLE_LENGTH),
                None => None,
            },
            first_error(
                match edit.explanation {
                    Some(text) => required_text_error("explanation", text@, MAX_EXPLANATION_LENGTH),
                    None => None,
                },
                first_error(
                    match edit.payload {
                        Some(payload) => payload_error(payload),
                        None => None,
                    },
                    match edit.expires_at {
                        Some(expires_at) if expires_at <= now => Some(
                            ProposalDomainError::ExpirationMustBeFuture,
                        ),
                        _ => None,
                    },
                ),
            ),
        )
    }
}

/// The proposal with the changes made.
pub open spec fn edited(proposal: Proposal, edit: EditProposal, now: Instant) -> Proposal {
    Proposal {
        title: match edit.title {
            Some(title) => title,
            None => proposal.title,
        },
        explanation: match edit.explanation {
            Some(text) => Some(text),
            None => proposal.explanation,
        },
        payload: match edit.payload {
            Some(payload) => payload,
            None => proposal.payload,
        },
        expires_at: match edit.expires_at {
            Some(expires_at) => expires_at,
            None => proposal.expires_at,
        },
        revision: (proposal.revision + 1) as u64,
        updated_at: now,
        ..proposal
    }
}

/// The proposal with the decision made.
pub open spec fn decided(
    proposal: Proposal,
    decision: DecisionKind,
    note: Option<String>,
    now: Instant,
) -> Proposal {
    Proposal {
        status: match decision {
            DecisionKind::Accept => ProposalStatus::Accepted,
            DecisionKind::Reject => ProposalStatus::Rejected,
        },
        decision_note: note,
        decided_at: Some(now),
        revision: (proposal.revision + 1) as u64,
        updated_at: now,
        ..proposal
    }
}

/// Whether a text is short enough for `field`, and free of control codes.
pub fn validate_length(
    field: &'static str,
    value: &str,
    max_length: usize,
) -> (result: Result<(), ProposalDomainError>)
    ensures
        result == match length_error(field, value@, max_length) {
            Some(error) => Err::<(), ProposalDomainError>(error),
            None => Ok(()),
        },
{
    if longer_than(value, max_length) {
        return Err(ProposalDomainError::TooLong { field, max_length });
    }
    if contains_control(value) {
        return Err(ProposalDomainError::UnsupportedText(field));
    }
    Ok(())
}

/// Whether a text can stand in an optional field.
pub fn validate_optional_length(
    field: &'static str,
    value: &Option<String>,
    max_length: usize,
) -> (result: Result<(), ProposalDomainError>)
    ensures
        result == match optional_text_error(field, *value, max_length) {
            Some(error) => Err::<(), ProposalDomainError>(error),
            None => Ok(()),
        },
{
    match value {
        Some(text) => validate_length(field, text.as_str(), max_length),
        None => Ok(()),
    }
}

/// Whether a text can stand in a required field.
pub fn validate_nonempty(
    field: &'static str,
    value: &str,
    max_length: usize,
) -> (result: Result<(), ProposalDomainError>)
    ensures
        result == match required_text_error(field, value@, max_length) {
            Some(error) => Err::<(), ProposalDomainError>(error),
            None => Ok(()),
        },
{
    if is_blank(value) {
        return Err(ProposalDomainError::Required(field));
    }
    validate_length(field, value, max_length)
}

/// Whether a document can be a payload.
pub fn validate_payload(payload: &Json) -> (result: Result<(), ProposalDomainError>)
    ensures
        result == match payload_error(*payload) {
            Some(error) => Err::<(), ProposalDomainError>(error),
            None => Ok(()),
        },
{
    if !payload.is_object() {
        return Err(ProposalDomainError::PayloadMustBeObject);
    }
    if json_has_unsupported_text(payload, 0) {
        return Err(ProposalDomainError::UnsupportedText("payload"));
    }
    Ok(())
}

impl Proposal {
    /// A pending proposal with the given identifier and content.
    pub fn with_id(id: Uuid, input: NewProposal, now: Instant) -> (result: Result<
        Proposal,
        ProposalDomainError,
    >)
        ensures
            result == match creation_error(input, now) {
                Some(error) => Err::<Proposal, ProposalDomainError>(error),
                None => Ok(created(id, input, now)),
            },
    {
        validate_nonempty(
            "submitted_by",
            input.submitted_by.as_str(),
            MAX_SOURCE_REFERENCE_LENGTH,
        )?;
        validate_nonempty("title", input.title.as_str(), MAX_TITLE_LENGTH)?;
        validate_optional_length(
            "source_reference",
            &input.source_reference,
            MAX_SOURCE_REFERENCE_LENGTH,
        )?;
        validate_optional_length("explanation", &input.explanation, MAX_EXPLANATION_LENGTH)?;
        validate_payload(&input.payload)?;
        if input.expires_at <= now {
            return Err(ProposalDomainError::ExpirationMustBeFuture);
        }
        Ok(
            Proposal {
                id,
                revision: 1,
                submitted_by: input.submitted_by,
                source: input.source,
                source_reference: input.source_reference,
                kind: input.kind,
                status: ProposalStatus::Pending,
                title: input.title,
                explanation: input.explanation,
                payload: input.payload,
                decision_note: None,
                created_at: now,
                updated_at: now,
                expires_at: input.expires_at,
                decided_at: None,
            },
        )
    }

    /// A pending proposal with the given content and a random identifier.
    pub fn new(input: NewProposal, now: Instant) -> (result: Result<Proposal, ProposalDomainError>)
        ensures
            match result {
                Ok(proposal) => creation_error(input, now) is None && proposal.id != 0 && proposal
                    == created(proposal.id, input, now),
                Err(error) => creation_error(input, now) == Some(error),
            },
    {
        Proposal::with_id(random_uuid(), input, now)
    }

    /// Changes a pending proposal. One that is due expires instead. A change that is
    /// refused leaves the content as it was.
    pub fn edit(&mut self, edit: EditProposal, now: Instant) -> (result: Result<
        (),
        ProposalDomainError,
    >)
        requires
            due(*old(self), now) || (old(self).status == ProposalStatus::Pending && edit_error(
                edit,
                now,
            ) is None) ==> old(self).revision < u64::MAX,
        ensures
            normalized(*old(self), now).status != ProposalStatus::Pending ==> *final(self)
                == normalized(*old(self), now) && result == Err::<(), ProposalDomainError>(
                ProposalDomainError::NotPending(normalized(*old(self), now).status),
            ),
            normalized(*old(self), now).status == ProposalStatus::Pending ==> match edit_error(
                edit,
                now,
            ) {
                Some(error) => *final(self) == *old(self) && result == Err::<
                    (),
                    ProposalDomainError,
                >(error),
                None => *final(self) == edited(*old(self), edit, now) && result is Ok,
            },
    {
        self.ensure_pending(now)?;
        if edit.title.is_none() && edit.explanation.is_none() && edit.payload.is_none()
            && edit.expires_at.is_none() {
            return Err(ProposalDomainError::EmptyEdit);
        }
        match &edit.title {
            Some(title) => {
                validate_nonempty("title", title.as_str(), MAX_TITLE_LENGTH)?;
            },
            None => {},
        }
        match &edit.explanation {
            Some(explanation) => {
                validate_nonempty("explanation", explanation.as_str(), MAX_EXPLANATION_LENGTH)?;
            },
            None => {},
        }
        match &edit.payload {
            Some(payload) => {
                validate_payload(payload)?;
            },
            None => {},
        }
        match edit.expires_at {
            Some(expires_at) => {
                if expires_at <= now {
                    return Err(ProposalDomainError::ExpirationMustBeFuture);
                }
            },
            None => {},
        }
        match edit.title {
            Some(title) => {
                self.title = title;
            },
            None => {},
        }
        match edit.explanation {
            Some(explanation) => {
                self.explanation = Some(explanation);
            },
            None => {},
        }
        match edit.payload {
            Some(payload) => {
                self.payload = payload;
            },
            None => {},
        }
        match edit.expires_at {
            Some(expires_at) => {
                self.expires_at = expires_at;
            },
            None => {},
        }
        self.bump_revision(now);
        Ok(())
    }

    /// Accepts or rejects a pending proposal. One that is due expires instead.
    pub fn decide(
        &mut self,
        decision: DecisionKind,
        note: Option<String>,
        now: Instant,
    ) -> (result: Result<(), ProposalDomainError>)
        requires
            due(*old(self), now) || (old(self).status == ProposalStatus::Pending
                && optional_text_error("decision_note", note, MAX_DECISION_NOTE_LENGTH) is None)
                ==> old(self).revision < u64::MAX,
        ensures
            normalized(*old(self), now).status != ProposalStatus::Pending ==> *final(self)
                == normalized(*old(self), now) && result == Err::<(), ProposalDomainError>(
                ProposalDomainError::NotPending(normalized(*old(self), now).status),
            ),
            normalized(*old(self), now).status == ProposalStatus::Pending
                ==> match optional_text_error("decision_note", note, MAX_DECISION_NOTE_LENGTH) {
                Some(error) => *final(self) == *old(self) && result == Err::<
                    (),
                    ProposalDomainError,
                >(error),
                None => *final(self) == decided(*old(self), decision, note, now) && result is Ok,
            },
    {
        self.ensure_pending(now)?;
        validate_optional_length("decision_note", &note, MAX_DECISION_NOTE_LENGTH)?;
        self.status = match decision {
            DecisionKind::Accept => ProposalStatus::Accepted,
            DecisionKind::Reject => ProposalStatus::Rejected,
        };
        self.decision_note = note;
        self.decided_at = Some(now);
        self.bump_revision(now);
        Ok(())
    }

    /// Lets a pending proposal expire that is due. Returns whether it did.
    pub fn expire_if_due(&mut self, now: Instant) -> (result: bool)
        requires
            due(*old(self), now) ==> old(self).revision < u64::MAX,
        ensures
            *final(self) == normalized(*old(self), now),
            result == due(*old(self), now),
    {
        if self.status == ProposalStatus::Pending && self.expires_at <= now {
            self.status = ProposalStatus::Expired;
            self.bump_revision(now);
            return true;
        }
        false
    }

    fn ensure_pending(&mut self, now: Instant) -> (result: Result<(), ProposalDomainError>)
        requires
            due(*old(self), now) ==> old(self).revision < u64::MAX,
        ensures
            *final(self) == normalized(*old(self), now),
            result == (if final(self).status == ProposalStatus::Pending {
                Ok::<(), ProposalDomainError>(())
            } else {
                Err(ProposalDomainError::NotPending(final(self).status))
            }),
    {
        self.expire_if_due(now);
        if self.status != ProposalStatus::Pending {
            return Err(ProposalDomainError::NotPending(self.status));
        }
        Ok(())
    }

    fn bump_revision(&mut self, now: Instant)
        requires
            old(self).revision < u64::MAX,
        ensures
            *final(self) == (Proposal {
                revision: (old(self).revision + 1) as u64,
                updated_at: now,
                ..*old(self)
            }),
    {
        self.revision = self.revision + 1;
        self.updated_at = now;
    }
}

/// A decision is final: once a proposal is no longer pending, the passing of time
/// leaves it as it is, and it is not due.
pub proof fn terminal_status_is_final(proposal: Proposal, now: Instant)
    requires
        proposal.status != ProposalStatus::Pending,
    ensures
        normalized(proposal, now) == proposal,
        !due(proposal, now),
{
}

/// Expiry comes once: a proposal as it is at one instant is the same when it is
/// looked at again at that instant or at an earlier one.
pub proof fn expiry_is_idempotent(proposal: Proposal, now: Instant, again: Instant)
    requires
        again <= now,
    ensures
        normalized(normalized(proposal, now), again) == normalized(proposal, now),
{
}

/// Every change that is made moves the revision on by exactly one, and only the
/// fields that it names change besides.
pub proof fn changes_advance_the_revision(
    proposal: Proposal,
    edit: EditProposal,
    decision: DecisionKind,
    note: Option<String>,
    now: Instant,
)
    requires
        proposal.revision < u64::MAX,
    ensures
        edited(proposal, edit, now).revision == proposal.revision + 1,
        decided(proposal, decision, note, now).revision == proposal.revision + 1,
        due(proposal, now) ==> normalized(proposal, now).revision == proposal.revision + 1,
        edited(proposal, edit, now).id == proposal.id,
        edited(proposal, edit, now).status == proposal.status,
        decided(proposal, decision, note, now).id == proposal.id,
        decided(proposal, decision, note, now).payload == proposal.payload,
        decided(proposal, decision, note, now).status != ProposalStatus::Pending,
{
}

} // verus!
