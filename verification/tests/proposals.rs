use dayweave_api::json::{Json, JsonNumber};
use dayweave_api::outside::current_instant;
use dayweave_api::proposals::domain::{
    DecisionKind, EditProposal, NewProposal, Proposal, ProposalDomainError, ProposalKind,
    ProposalSource, ProposalStatus,
};
use dayweave_api::proposals::names::{
    kind_name, parse_kind, parse_source, parse_status, source_name, status_name,
};
use dayweave_api::proposals::repository::{
    InMemoryProposalRepository, ProposalQuery, ProposalRepository, RepositoryError,
};
use dayweave_api::proposals::service::{
    decided_proposal, Clock, ProposalService, ProposalServiceError, SystemClock,
};
use dayweave_api::proposals::storage::{
    check_expected_revision, list_limit, map_insert_error, proposal_from_row, proposal_row,
    revision_to_i64,
};
use dayweave_api::time::{Instant, HOUR, MINUTE};

const DAY: Instant = 24 * HOUR;

fn proposal_at(now: Instant) -> Proposal {
    Proposal::new(
        NewProposal {
            submitted_by: "test-user".to_owned(),
            source: ProposalSource::Codex,
            source_reference: Some("conversation-1".to_owned()),
            kind: ProposalKind::CreateItem,
            title: "Prepare review".to_owned(),
            explanation: Some("A focused review block".to_owned()),
            payload: Json::Object(vec![(
                "duration_minutes".to_owned(),
                Json::Number(JsonNumber::Unsigned(30)),
            )]),
            expires_at: now + 7 * DAY,
        },
        now,
    )
    .expect("valid proposal")
}

fn new_proposal(title: &str, source: ProposalSource, now: Instant) -> NewProposal {
    NewProposal {
        submitted_by: "test-user".to_owned(),
        source,
        source_reference: None,
        kind: ProposalKind::Recommendation,
        title: title.to_owned(),
        explanation: None,
        payload: Json::Object(Vec::new()),
        expires_at: now + 7 * DAY,
    }
}

fn titled(title: &str, source: ProposalSource) -> Proposal {
    let now = current_instant();
    Proposal::new(new_proposal(title, source, now), now).unwrap()
}

#[test]
fn validates_required_fields_and_object_payload() {
    let now = current_instant();
    let input = |title: &str| NewProposal {
        submitted_by: "test-user".to_owned(),
        source: ProposalSource::Codex,
        source_reference: None,
        kind: ProposalKind::Recommendation,
        title: title.to_owned(),
        explanation: None,
        payload: Json::Array(Vec::new()),
        expires_at: now + HOUR,
    };

    assert_eq!(
        Proposal::new(input(" "), now).unwrap_err(),
        ProposalDomainError::Required("title")
    );
    assert_eq!(
        Proposal::new(input("A title"), now).unwrap_err(),
        ProposalDomainError::PayloadMustBeObject
    );
}

#[test]
fn decision_is_terminal_and_revisioned() {
    let now = current_instant();
    let mut proposal = proposal_at(now);

    proposal
        .decide(DecisionKind::Accept, Some("Looks right".to_owned()), now + MINUTE)
        .expect("accept pending proposal");

    assert_eq!(proposal.status, ProposalStatus::Accepted);
    assert_eq!(proposal.revision, 2);
    assert_eq!(
        proposal.decide(DecisionKind::Reject, None, now + 2 * MINUTE).unwrap_err(),
        ProposalDomainError::NotPending(ProposalStatus::Accepted)
    );
}

#[test]
fn due_proposal_expires_before_edit() {
    let now = current_instant();
    let mut proposal = proposal_at(now);

    let error = proposal
        .edit(
            EditProposal { title: Some("Too late".to_owned()), ..EditProposal::default() },
            now + 8 * DAY,
        )
        .unwrap_err();

    assert_eq!(error, ProposalDomainError::NotPending(ProposalStatus::Expired));
    assert_eq!(proposal.status, ProposalStatus::Expired);
    assert_eq!(proposal.revision, 2);
}

#[test]
fn invalid_edit_does_not_partially_mutate_proposal() {
    let now = current_instant();
    let mut proposal = proposal_at(now);
    let original_title = proposal.title.clone();

    assert_eq!(
        proposal
            .edit(
                EditProposal {
                    title: Some("A title that must not leak through".to_owned()),
                    expires_at: Some(now),
                    ..EditProposal::default()
                },
                now + MINUTE,
            )
            .unwrap_err(),
        ProposalDomainError::ExpirationMustBeFuture
    );
    assert_eq!(proposal.title, original_title);
    assert_eq!(proposal.revision, 1);
}

#[test]
fn protects_replacements_with_revision_check() {
    let mut repository = InMemoryProposalRepository::default();
    let original = repository.insert(titled("Original", ProposalSource::Codex)).unwrap();
    let mut changed = original.clone();
    changed.title = "Changed".to_owned();
    changed.revision = 2;

    assert_eq!(
        repository.replace(changed.clone(), 99).unwrap_err(),
        RepositoryError::RevisionConflict { expected: 99, actual: 1 }
    );
    assert_eq!(repository.replace(changed, 1).unwrap().title, "Changed");
}

#[test]
fn filters_and_limits_results() {
    let mut repository = InMemoryProposalRepository::default();
    repository.insert(titled("Codex", ProposalSource::Codex)).unwrap();
    repository.insert(titled("ChatGPT", ProposalSource::ChatGpt)).unwrap();

    let results = repository
        .list(ProposalQuery {
            source: Some(ProposalSource::Codex),
            limit: 1,
            ..ProposalQuery::default()
        })
        .unwrap();

    assert_eq!(results.len(), 1);
    assert_eq!(results[0].title, "Codex");
}

#[test]
fn content_is_checked_field_by_field() {
    let now = current_instant();
    let base = || new_proposal("A title", ProposalSource::Codex, now);
    let refusal = |input: NewProposal| Proposal::new(input, now).unwrap_err();

    assert_eq!(
        refusal(NewProposal { submitted_by: String::new(), ..base() }),
        ProposalDomainError::Required("submitted_by")
    );
    assert_eq!(
        refusal(NewProposal { title: "x".repeat(201), ..base() }),
        ProposalDomainError::TooLong { field: "title", max_length: 200 }
    );
    assert_eq!(
        refusal(NewProposal { explanation: Some("e".repeat(4_001)), ..base() }),
        ProposalDomainError::TooLong { field: "explanation", max_length: 4_000 }
    );
    assert_eq!(
        refusal(NewProposal { title: "a\0b".to_owned(), ..base() }),
        ProposalDomainError::UnsupportedText("title")
    );
    assert_eq!(
        refusal(NewProposal { expires_at: now, ..base() }),
        ProposalDomainError::ExpirationMustBeFuture
    );
    assert!(Proposal::new(NewProposal { title: "ü".repeat(200), ..base() }, now).is_ok());
    assert_eq!(
        proposal_at(now).edit(EditProposal::default(), now).unwrap_err(),
        ProposalDomainError::EmptyEdit
    );
}

#[test]
fn decisions_and_expiry_are_final() {
    let now = current_instant();
    let mut proposal = proposal_at(now);
    assert!(!proposal.expire_if_due(now + 7 * DAY - 1));
    assert!(proposal.expire_if_due(now + 7 * DAY));
    assert_eq!(proposal.revision, 2);
    assert!(!proposal.expire_if_due(now + 8 * DAY));
    assert_eq!(proposal.revision, 2);

    let mut rejected = proposal_at(now);
    rejected.decide(DecisionKind::Reject, None, now).unwrap();
    assert!(!rejected.expire_if_due(now + 100 * DAY));
    assert_eq!(rejected.status, ProposalStatus::Rejected);
    assert_eq!(rejected.decided_at, Some(now));
}

#[test]
fn every_proposal_gets_an_identifier_of_its_own() {
    let now = current_instant();
    let first = proposal_at(now);
    let second = proposal_at(now);
    assert_ne!(first.id, second.id);
    assert_ne!(first.id, 0);
}

#[test]
fn the_clock_goes_by_the_system_time() {
    let reading = current_instant();
    let later = chrono::Utc::now();
    let seconds = reading / 1_000_000_000;
    assert!((later.timestamp() as i128 - seconds).abs() <= 5);
}

#[test]
fn lists_go_from_the_newest_to_the_oldest() {
    let mut repository = InMemoryProposalRepository::default();
    let now = current_instant();
    for age in [3, 1, 2] {
        let at = now - age * MINUTE;
        repository
            .insert(
                Proposal::new(
                    new_proposal(&format!("{age}"), ProposalSource::AppAssistant, at),
                    at,
                )
                .unwrap(),
            )
            .unwrap();
    }
    let titles = |limit: usize, repository: &InMemoryProposalRepository| {
        repository
            .list(ProposalQuery { limit, ..ProposalQuery::default() })
            .unwrap()
            .into_iter()
            .map(|proposal| proposal.title)
            .collect::<Vec<_>>()
    };
    assert_eq!(titles(10, &repository), vec!["1", "2", "3"]);
    assert_eq!(titles(2, &repository), vec!["1", "2"]);
    assert_eq!(titles(0, &repository), Vec::<String>::new());
}

#[test]
fn the_store_refuses_what_it_does_not_hold() {
    let mut repository = InMemoryProposalRepository::default();
    let stored = repository.insert(titled("Stored", ProposalSource::Codex)).unwrap();
    assert_eq!(
        repository.insert(stored.clone()).unwrap_err(),
        RepositoryError::Duplicate(stored.id)
    );
    assert_eq!(repository.get(7).unwrap_err(), RepositoryError::NotFound(7));
    assert_eq!(
        repository.delete(stored.id, 2).unwrap_err(),
        RepositoryError::RevisionConflict { expected: 2, actual: 1 }
    );
    repository.delete(stored.id, 1).unwrap();
    assert_eq!(repository.get(stored.id).unwrap_err(), RepositoryError::NotFound(stored.id));
}

#[test]
fn the_service_expires_what_is_due_when_it_is_read() {
    let mut service = ProposalService::new(InMemoryProposalRepository::default(), SystemClock, 7 * DAY);
    let now = current_instant();
    let made = service
        .create_at(new_proposal("Due soon", ProposalSource::Codex, now), now)
        .unwrap();
    assert_eq!(service.get_at(made.id, now).unwrap().status, ProposalStatus::Pending);
    let due = service.get_at(made.id, now + 8 * DAY).unwrap();
    assert_eq!(due.status, ProposalStatus::Expired);
    assert_eq!(due.revision, 2);
    let again = service.get_at(made.id, now + 9 * DAY).unwrap();
    assert_eq!(again.revision, 2);
}

#[test]
fn the_service_changes_only_the_expected_revision() {
    let mut service = ProposalService::new(InMemoryProposalRepository::default(), SystemClock, 7 * DAY);
    let now = current_instant();
    let made = service
        .create_at(new_proposal("Plan", ProposalSource::Codex, now), now)
        .unwrap();
    let rename = || EditProposal { title: Some("Better plan".to_owned()), ..EditProposal::default() };
    assert!(matches!(
        service.edit_at(made.id, 5, rename(), now, now).unwrap_err(),
        ProposalServiceError::Repository(RepositoryError::RevisionConflict {
            expected: 5,
            actual: 1
        })
    ));
    let edited = service.edit_at(made.id, 1, rename(), now, now).unwrap();
    assert_eq!((edited.title.as_str(), edited.revision), ("Better plan", 2));
    let decided = service
        .decide_at(made.id, 2, DecisionKind::Accept, None, now, now)
        .unwrap();
    assert_eq!((decided.status, decided.revision), (ProposalStatus::Accepted, 3));
    assert!(matches!(
        service.decide_at(made.id, 3, DecisionKind::Reject, None, now, now).unwrap_err(),
        ProposalServiceError::Domain(ProposalDomainError::NotPending(ProposalStatus::Accepted))
    ));
    service.delete(made.id, 3).unwrap();
    assert!(service.get_at(made.id, now).is_err());
}

#[test]
fn a_list_never_shows_overdue_proposals_as_pending() {
    let mut service = ProposalService::new(InMemoryProposalRepository::default(), SystemClock, 7 * DAY);
    let past = current_instant() - 30 * DAY;
    service
        .create_at(new_proposal("Overdue", ProposalSource::Codex, past), past)
        .unwrap();
    let now = current_instant();
    service
        .create_at(new_proposal("Open", ProposalSource::Codex, now), now)
        .unwrap();
    let pending = service
        .list(ProposalQuery {
            status: Some(ProposalStatus::Pending),
            limit: 10,
            ..ProposalQuery::default()
        })
        .unwrap();
    assert_eq!(pending.len(), 1);
    assert_eq!(pending[0].title, "Open");
}

struct StoppedClock(Instant);

impl Clock for StoppedClock {
    fn shows(&self, now: Instant) -> bool {
        now == self.0
    }

    fn now(&self) -> Instant {
        self.0
    }
}

#[test]
fn a_list_settles_every_proposal_of_the_source() {
    let now = current_instant();
    let mut service =
        ProposalService::new(InMemoryProposalRepository::default(), StoppedClock(now), 7 * DAY);
    let made = |service: &mut ProposalService<InMemoryProposalRepository, StoppedClock>,
                title: &str,
                source: ProposalSource,
                at: Instant| service.create_at(new_proposal(title, source, at), at).unwrap().id;
    let oldest = made(&mut service, "Oldest", ProposalSource::Codex, now - 30 * DAY);
    let older = made(&mut service, "Older", ProposalSource::Codex, now - 29 * DAY);
    let open = made(&mut service, "Open", ProposalSource::Codex, now - DAY);
    let other = made(&mut service, "Other", ProposalSource::ChatGpt, now - 20 * DAY);
    let titles: Vec<String> = service
        .list(ProposalQuery {
            source: Some(ProposalSource::Codex),
            status: Some(ProposalStatus::Expired),
            limit: 1,
        })
        .unwrap()
        .into_iter()
        .map(|proposal| proposal.title)
        .collect();
    assert_eq!(titles, vec!["Older".to_owned()]);
    let stored = |id: u128| {
        let proposal = service.repository.get(id).unwrap();
        (proposal.status, proposal.revision)
    };
    assert_eq!(stored(oldest), (ProposalStatus::Expired, 2));
    assert_eq!(stored(older), (ProposalStatus::Expired, 2));
    assert_eq!(stored(open), (ProposalStatus::Pending, 1));
    assert_eq!(stored(other), (ProposalStatus::Pending, 1));
}

#[test]
fn a_list_reads_each_proposal_at_its_own_instant() {
    let now = current_instant();
    let mut service =
        ProposalService::new(InMemoryProposalRepository::default(), SystemClock, 7 * DAY);
    service.create_at(new_proposal("First", ProposalSource::Codex, now), now).unwrap();
    let later = now + HOUR;
    service.create_at(new_proposal("Second", ProposalSource::Codex, later), later).unwrap();
    let query = ProposalQuery { limit: 10, ..ProposalQuery::default() };
    let statuses: Vec<(String, ProposalStatus)> = service
        .list_at(query, &vec![later, now + 8 * DAY])
        .unwrap()
        .into_iter()
        .map(|proposal| (proposal.title, proposal.status))
        .collect();
    assert_eq!(
        statuses,
        vec![
            ("Second".to_owned(), ProposalStatus::Pending),
            ("First".to_owned(), ProposalStatus::Expired),
        ]
    );
}

#[test]
fn changes_are_made_at_the_time_that_the_clock_shows() {
    let now = current_instant();
    let mut service =
        ProposalService::new(InMemoryProposalRepository::default(), StoppedClock(now), 7 * DAY);
    let made = service.create(new_proposal("Plan", ProposalSource::Codex, now)).unwrap();
    assert_eq!(made.created_at, now);
    let rename = EditProposal { title: Some("Better".to_owned()), ..EditProposal::default() };
    service.clock = StoppedClock(now + HOUR);
    assert_eq!(service.edit(made.id, 1, rename).unwrap().updated_at, now + HOUR);
    service.clock = StoppedClock(now + 2 * HOUR);
    let decided = service.decide(made.id, 2, DecisionKind::Accept, None).unwrap();
    assert_eq!((decided.updated_at, decided.revision), (now + 2 * HOUR, 3));
    assert!(matches!(
        service.repository.insert(decided).unwrap_err(),
        RepositoryError::Duplicate(id) if id == made.id
    ));
}

#[test]
fn stored_names_read_back() {
    for source in [
        ProposalSource::AppAssistant,
        ProposalSource::ChatGpt,
        ProposalSource::Codex,
        ProposalSource::ExternalMcp,
    ] {
        assert_eq!(parse_source(source_name(source)).unwrap(), source);
    }
    for kind in [
        ProposalKind::CreateItem,
        ProposalKind::UpdateItem,
        ProposalKind::GoalBreakdown,
        ProposalKind::ConstraintChange,
        ProposalKind::CalendarEvent,
        ProposalKind::SchedulePlan,
        ProposalKind::Recommendation,
    ] {
        assert_eq!(parse_kind(kind_name(kind)).unwrap(), kind);
    }
    for status in [
        ProposalStatus::Pending,
        ProposalStatus::Accepted,
        ProposalStatus::Rejected,
        ProposalStatus::Expired,
    ] {
        assert_eq!(parse_status(status_name(status)).unwrap(), status);
    }
    assert!(parse_source("someone").is_err());
    assert!(parse_kind("").is_err());
    assert!(parse_status("Pending").is_err());
}

#[test]
fn the_service_proposes_an_expiry() {
    let service = ProposalService::new(InMemoryProposalRepository::default(), SystemClock, 7 * DAY);
    assert_eq!(service.default_expiration_at(1_000), 1_000 + 7 * DAY);
    let expiry = service.default_expiration();
    assert!((expiry - current_instant() - 7 * DAY).abs() < MINUTE);
}

#[test]
fn stored_revisions_are_compared_with_the_expected_one() {
    assert_eq!(check_expected_revision(4, Some(2), 2), Ok(()));
    assert_eq!(check_expected_revision(4, None, 2), Err(RepositoryError::NotFound(4)));
    assert_eq!(check_expected_revision(4, Some(-1), 2), Err(RepositoryError::Internal));
    assert_eq!(
        check_expected_revision(4, Some(3), 2),
        Err(RepositoryError::RevisionConflict { expected: 2, actual: 3 })
    );
    assert_eq!(revision_to_i64(u64::MAX), Err(RepositoryError::Internal));
    assert_eq!(revision_to_i64(12), Ok(12));
    assert_eq!(list_limit(25), 25);
    assert_eq!(list_limit(usize::MAX), i64::MAX);
    assert_eq!(map_insert_error(Some("23505"), 9), RepositoryError::Duplicate(9));
    assert_eq!(map_insert_error(Some("23514"), 9), RepositoryError::Internal);
    assert_eq!(map_insert_error(None, 9), RepositoryError::Internal);
}

#[test]
fn what_was_stored_of_a_proposal_reads_back() {
    let now = current_instant();
    let mut proposal = proposal_at(now);
    proposal.decide(DecisionKind::Reject, Some("Not now".to_owned()), now + MINUTE).unwrap();
    let row = proposal_row(proposal.clone()).unwrap();
    assert_eq!((row.source.as_str(), row.status.as_str()), ("codex", "rejected"));
    assert_eq!(row.revision, 2);
    let read = proposal_from_row(row).unwrap();
    assert_eq!(read.id, proposal.id);
    assert_eq!(read.status, ProposalStatus::Rejected);
    assert_eq!(read.decision_note.as_deref(), Some("Not now"));
    assert_eq!(read.decided_at, proposal.decided_at);
    let mut lost = proposal_row(proposal.clone()).unwrap();
    lost.kind = "unknown".to_owned();
    assert_eq!(proposal_from_row(lost).unwrap_err(), RepositoryError::Internal);
    proposal.revision = u64::MAX;
    assert_eq!(proposal_row(proposal).unwrap_err(), RepositoryError::Internal);
}

#[test]
fn a_full_revision_counter_matters_only_where_it_moves() {
    let now = current_instant();
    let mut proposal = Proposal { revision: u64::MAX, ..proposal_at(now) };
    assert!(!proposal.expire_if_due(now));
    let nothing = EditProposal { title: None, explanation: None, payload: None, expires_at: None };
    assert!(matches!(proposal.edit(nothing, now), Err(ProposalDomainError::EmptyEdit)));
    let note = Some("n".repeat(100_000));
    assert!(proposal.decide(DecisionKind::Accept, note, now).is_err());
    assert_eq!(proposal.revision, u64::MAX);
    assert!(matches!(
        decided_proposal(proposal, 1, DecisionKind::Accept, None, now),
        Err(ProposalServiceError::Repository(RepositoryError::RevisionConflict {
            expected: 1,
            actual: u64::MAX,
        }))
    ));
}
