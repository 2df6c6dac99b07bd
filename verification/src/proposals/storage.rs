//! Proposals as the database stores them, and what is recorded of a change.
use vstd::prelude::*;

use crate::items::storage::event_deduplication_key;
use crate::json::Json;
use crate::proposals::domain::{Proposal, ProposalKind, ProposalSource, ProposalStatus};
use crate::proposals::names::{
    kind_name, parse_kind, parse_source, parse_status, source_name, status_name,
};
use crate::proposals::repository::RepositoryError;
use crate::text::same_text;
use crate::time::{Instant, Uuid};

verus! {

/// A revision as the database stores it.
pub fn revision_to_i64(revision: u64) -> (result: Result<i64, RepositoryError>)
    ensures
        match result {
            Ok(stored) => stored == revision,
            Err(error) => revision > i64::MAX && error == RepositoryError::Internal,
        },
{
    match crate::numbers::signed(revision) {
        Some(stored) => Ok(stored),
        None => Err(RepositoryError::Internal),
    }
}

/// How many proposals are read for a list of at most `limit`.
pub fn list_limit(limit: usize) -> (result: i64)
    ensures
        result == (if limit as int <= i64::MAX {
            limit as int
        } else {
            i64::MAX as int
        }),
{
    match crate::numbers::signed(limit as u64) {
        Some(count) => count,
        None => i64::MAX,
    }
}

/// Why a proposal could not be stored: there is one with its identifier.
pub fn map_insert_error(code: Option<&str>, id: Uuid) -> (result: RepositoryError)
    ensures
        result == (if code is Some && code->0@ == "23505"@ {
            RepositoryError::Duplicate(id)
        } else {
            RepositoryError::Internal
        }),
{
    match code {
        Some(text) => if same_text(text, "23505") {
            RepositoryError::Duplicate(id)
        } else {
            RepositoryError::Internal
        },
        None => RepositoryError::Internal,
    }
}

/// Whether a stored proposal has the expected revision. `actual` is the revision that is
/// stored, if the proposal is.
pub fn check_expected_revision(
    proposal_id: Uuid,
    actual: Option<i64>,
    expected_revision: u64,
) -> (result: Result<(), RepositoryError>)
    ensures
        result == match actual {
            None => Err::<(), RepositoryError>(RepositoryError::NotFound(proposal_id)),
            Some(stored) => if stored < 0 {
                Err(RepositoryError::Internal)
            } else if stored != expected_revision {
                Err(
                    RepositoryError::RevisionConflict {
                        expected: expected_revision,
                        actual: stored as u64,
                    },
                )
            } else {
                Ok(())
            },
        },
{
    match actual {
        None => Err(RepositoryError::NotFound(proposal_id)),
        Some(stored) => match crate::numbers::unsigned(stored) {
            None => Err(RepositoryError::Internal),
            Some(actual) => if actual != expected_revision {
                Err(RepositoryError::RevisionConflict { expected: expected_revision, actual })
            } else {
                Ok(())
            },
        },
    }
}

/// The columns of a proposal.
#[derive(Debug)]
pub struct ProposalRow {
    pub id: Uuid,
    pub revision: i64,
    pub submitted_by_subject: String,
    pub source: String,
    pub source_reference: Option<String>,
    pub kind: String,
    pub status: String,
    pub title: String,
    pub explanation: Option<String>,
    pub payload: Json,
    pub decision_note: Option<String>,
    pub created_at: Instant,
    pub updated_at: Instant,
    pub expires_at: Instant,
    pub decided_at: Option<Instant>,
}

/// Whether a proposal is read from its columns.
pub open spec fn proposal_reads(proposal: Proposal, row: ProposalRow) -> bool {
    &&& proposal.id == row.id
    &&& proposal.revision == row.revision
    &&& proposal.submitted_by == row.submitted_by_subject
    &&& row.source@ == crate::proposals::names::source_name_text(proposal.source)
    &&& proposal.source_reference == row.source_reference
    &&& row.kind@ == crate::proposals::names::kind_name_text(proposal.kind)
    &&& row.status@ == crate::proposals::names::status_name_text(proposal.status)
    &&& proposal.title == row.title
    &&& proposal.explanation == row.explanation
    &&& proposal.payload == row.payload
    &&& proposal.decision_note == row.decision_note
    &&& proposal.created_at == row.created_at
    &&& proposal.updated_at == row.updated_at
    &&& proposal.expires_at == row.expires_at
    &&& proposal.decided_at == row.decided_at
}

/// Reads a proposal. Columns that hold no proposal are an error.
pub fn proposal_from_row(row: ProposalRow) -> (result: Result<Proposal, RepositoryError>)
    ensures
        match result {
            Ok(proposal) => proposal_reads(proposal, row),
            Err(error) => error == RepositoryError::Internal && forall|proposal: Proposal|
                !proposal_reads(proposal, row),
        },
{
    let revision: u64 = match crate::numbers::unsigned(row.revision) {
        Some(revision) => revision,
        None => {
            return Err(RepositoryError::Internal);
        },
    };
    let source: ProposalSource = parse_source(row.source.as_str())?;
    let kind: ProposalKind = parse_kind(row.kind.as_str())?;
    let status: ProposalStatus = parse_status(row.status.as_str())?;
    Ok(
        Proposal {
            id: row.id,
            revision,
            submitted_by: row.submitted_by_subject,
            source,
            source_reference: row.source_reference,
            kind,
            status,
            title: row.title,
            explanation: row.explanation,
            payload: row.payload,
            decision_note: row.decision_note,
            created_at: row.created_at,
            updated_at: row.updated_at,
            expires_at: row.expires_at,
            decided_at: row.decided_at,
        },
    )
}

/// The columns of a proposal. A revision that the database cannot hold is an error.
pub fn proposal_row(proposal: Proposal) -> (result: Result<ProposalRow, RepositoryError>)
    ensures
        match result {
            Ok(row) => proposal_reads(proposal, row),
            Err(error) => proposal.revision > i64::MAX && error == RepositoryError::Internal,
        },
{
    let revision: i64 = revision_to_i64(proposal.revision)?;
    Ok(
        ProposalRow {
            id: proposal.id,
            revision,
            submitted_by_subject: proposal.submitted_by,
            source: source_name(proposal.source).to_owned(),
            source_reference: proposal.source_reference,
            kind: kind_name(proposal.kind).to_owned(),
            status: status_name(proposal.status).to_owned(),
            title: proposal.title,
            explanation: proposal.explanation,
            payload: proposal.payload,
            decision_note: proposal.decision_note,
            created_at: proposal.created_at,
            updated_at: proposal.updated_at,
            expires_at: proposal.expires_at,
            decided_at: proposal.decided_at,
        },
    )
}

/// What is read of a proposal that was stored is the proposal: columns are those of one
/// proposal at most.
pub proof fn stored_proposal_reads_back(stored: Proposal, row: ProposalRow, read: Proposal)
    requires
        proposal_reads(stored, row),
        proposal_reads(read, row),
    ensures
        read == stored,
{
    crate::proposals::names::source_names_differ(stored.source, read.source);
    crate::proposals::names::kind_names_differ(stored.kind, read.kind);
    crate::proposals::names::status_names_differ(stored.status, read.status);
}

/// What is recorded of a change of a proposal beside the proposal itself.
#[derive(Debug)]
pub struct ProposalMutationRecord {
    pub event: &'static str,
    pub revision: i64,
    /// The key under which subscribers are told of the change once.
    pub deduplication_key: String,
    pub base_revision: Option<i64>,
}

/// What happens to a proposal in the store.
#[derive(Clone, Copy, Debug, PartialEq, Eq, Structural)]
pub enum ProposalEvent {
    Created,
    /// The proposal was written over one of this revision.
    Updated { base_revision: u64 },
    Trashed,
}

/// The name of what happens to a proposal.
pub open spec fn proposal_event_name(event: ProposalEvent) -> Seq<char> {
    match event {
        ProposalEvent::Created => "proposal.created"@,
        ProposalEvent::Updated { .. } => "proposal.updated"@,
        ProposalEvent::Trashed => "proposal.trashed"@,
    }
}

/// The revision that a proposal had before something happened to it.
pub open spec fn base_of(event: ProposalEvent, revision: u64) -> Option<u64> {
    match event {
        ProposalEvent::Created => None,
        ProposalEvent::Updated { base_revision } => Some(base_revision),
        ProposalEvent::Trashed => Some(revision),
    }
}

/// What is recorded when something happens to a proposal. `revision` is the one that it
/// then has; a proposal that goes to the trash keeps its revision.
pub fn proposal_mutation_record(id: Uuid, revision: u64, event: ProposalEvent) -> (result: Result<
    ProposalMutationRecord,
    RepositoryError,
>)
    ensures
        match result {
            Ok(record) => {
                &&& record.event@ == proposal_event_name(event)
                &&& record.revision == revision
                &&& record.deduplication_key@ == crate::items::storage::event_key(
                    proposal_event_name(event),
                    id,
                    revision,
                )
                &&& match (record.base_revision, base_of(event, revision)) {
                    (Some(stored), Some(base)) => stored == base,
                    (None, None) => true,
                    _ => false,
                }
            },
            Err(error) => error == RepositoryError::Internal && (revision > i64::MAX || (
            base_of(event, revision) is Some && base_of(event, revision)->0 > i64::MAX)),
        },
{
    let stored: i64 = revision_to_i64(revision)?;
    let (name, base): (&'static str, Option<u64>) = match event {
        ProposalEvent::Created => ("proposal.created", None),
        ProposalEvent::Updated { base_revision } => ("proposal.updated", Some(base_revision)),
        ProposalEvent::Trashed => ("proposal.trashed", Some(revision)),
    };
    let base_revision: Option<i64> = match base {
        Some(value) => Some(revision_to_i64(value)?),
        None => None,
    };
    Ok(
        ProposalMutationRecord {
            event: name,
            revision: stored,
            deduplication_key: event_deduplication_key(name, id, revision),
            base_revision,
        },
    )
}

} // verus!
