//! The names under which the database stores the enumerations of proposals.
use vstd::prelude::*;

use crate::proposals::domain::{ProposalKind, ProposalSource, ProposalStatus};
use crate::proposals::repository::RepositoryError;
use crate::text::same_text;

verus! {

/// The stored name of where a proposal comes from.
pub open spec fn source_name_text(value: ProposalSource) -> Seq<char> {
    match value {
        ProposalSource::AppAssistant => "app_assistant"@,
        ProposalSource::ChatGpt => "chat_gpt"@,
        ProposalSource::Codex => "codex"@,
        ProposalSource::ExternalMcp => "external_mcp"@,
    }
}

/// The stored name of where a proposal comes from.
pub fn source_name(value: ProposalSource) -> (result: &'static str)
    ensures
        result@ == source_name_text(value),
{
    match value {
        ProposalSource::AppAssistant => "app_assistant",
        ProposalSource::ChatGpt => "chat_gpt",
        ProposalSource::Codex => "codex",
        ProposalSource::ExternalMcp => "external_mcp",
    }
}

/// Reads where a proposal comes from from its stored name.
pub fn parse_source(value: &str) -> (result: Result<ProposalSource, RepositoryError>)
    ensures
        match result {
            Ok(read) => value@ == source_name_text(read),
            Err(error) => error == RepositoryError::Internal && forall|x: ProposalSource|
                value@ != #[trigger] source_name_text(x),
        },
{
    if same_text(value, "app_assistant") {
        Ok(ProposalSource::AppAssistant)
    } else if same_text(value, "chat_gpt") {
        Ok(ProposalSource::ChatGpt)
    } else if same_text(value, "codex") {
        Ok(ProposalSource::Codex)
    } else if same_text(value, "external_mcp") {
        Ok(ProposalSource::ExternalMcp)
    } else {
        Err(RepositoryError::Internal)
    }
}

/// The stored names of where proposals come from tell them apart.
pub proof fn source_names_differ(a: ProposalSource, b: ProposalSource)
    requires
        source_name_text(a) == source_name_text(b),
    ensures
        a == b,
{
    reveal_strlit("app_assistant");
    reveal_strlit("chat_gpt");
    reveal_strlit("codex");
    reveal_strlit("external_mcp");
    assert("app_assistant"@.len() == 13);
    assert("chat_gpt"@.len() == 8);
    assert("codex"@.len() == 5);
    assert("external_mcp"@.len() == 12);
}

/// The stored name of the kind of a proposal.
pub open spec fn kind_name_text(value: ProposalKind) -> Seq<char> {
    match value {
        ProposalKind::CreateItem => "create_item"@,
        ProposalKind::UpdateItem => "update_item"@,
        ProposalKind::GoalBreakdown => "goal_breakdown"@,
        ProposalKind::ConstraintChange => "constraint_change"@,
        ProposalKind::CalendarEvent => "calendar_event"@,
        ProposalKind::SchedulePlan => "schedule_plan"@,
        ProposalKind::Recommendation => "recommendation"@,
    }
}

/// The stored name of the kind of a proposal.
pub fn kind_name(value: ProposalKind) -> (result: &'static str)
    ensures
        result@ == kind_name_text(value),
{
    match value {
        ProposalKind::CreateItem => "create_item",
        ProposalKind::UpdateItem => "update_item",
        ProposalKind::GoalBreakdown => "goal_breakdown",
        ProposalKind::ConstraintChange => "constraint_change",
        ProposalKind::CalendarEvent => "calendar_event",
        ProposalKind::SchedulePlan => "schedule_plan",
        ProposalKind::Recommendation => "recommendation",
    }
}

/// Reads the kind of a proposal from its stored name.
pub fn parse_kind(value: &str) -> (result: Result<ProposalKind, RepositoryError>)
    ensures
        match result {
            Ok(read) => value@ == kind_name_text(read),
            Err(error) => error == RepositoryError::Internal && forall|x: ProposalKind|
                value@ != #[trigger] kind_name_text(x),
        },
{
    if same_text(value, "create_item") {
        Ok(ProposalKind::CreateItem)
    } else if same_text(value, "update_item") {
        Ok(ProposalKind::UpdateItem)
    } else if same_text(value, "goal_breakdown") {
        Ok(ProposalKind::GoalBreakdown)
    } else if same_text(value, "constraint_change") {
        Ok(ProposalKind::ConstraintChange)
    } else if same_text(value, "calendar_event") {
        Ok(ProposalKind::CalendarEvent)
    } else if same_text(value, "schedule_plan") {
        Ok(ProposalKind::SchedulePlan)
    } else if same_text(value, "recommendation") {
        Ok(ProposalKind::Recommendation)
    } else {
        Err(RepositoryError::Internal)
    }
}

/// The stored names of kinds tell them apart.
pub proof fn kind_names_differ(a: ProposalKind, b: ProposalKind)
    requires
        kind_name_text(a) == kind_name_text(b),
    ensures
        a == b,
{
    reveal_strlit("create_item");
    reveal_strlit("update_item");
    reveal_strlit("goal_breakdown");
    reveal_strlit("constraint_change");
    reveal_strlit("calendar_event");
    reveal_strlit("schedule_plan");
    reveal_strlit("recommendation");
    assert("create_item"@.len() == 11);
    assert("update_item"@.len() == 11);
    assert("goal_breakdown"@.len() == 14);
    assert("constraint_change"@.len() == 17);
    assert("calendar_event"@.len() == 14);
    assert("schedule_plan"@.len() == 13);
    assert("recommendation"@.len() == 14);
    assert("calendar_event"@[0] == 'c');
    assert("create_item"@[0] == 'c');
    assert("goal_breakdown"@[0] == 'g');
    assert("recommendation"@[0] == 'r');
    assert("update_item"@[0] == 'u');
}

/// The stored name of the status of a proposal.
pub open spec fn status_name_text(value: ProposalStatus) -> Seq<char> {
    match value {
        ProposalStatus::Pending => "pending"@,
        ProposalStatus::Accepted => "accepted"@,
        ProposalStatus::Rejected => "rejected"@,
        ProposalStatus::Expired => "expired"@,
    }
}

/// The stored name of the status of a proposal.
pub fn status_name(value: ProposalStatus) -> (result: &'static str)
    ensures
        result@ == status_name_text(value),
{
    match value {
        ProposalStatus::Pending => "pending",
        ProposalStatus::Accepted => "accepted",
        ProposalStatus::Rejected => "rejected",
        ProposalStatus::Expired => "expired",
    }
}

/// Reads the status of a proposal from its stored name.
pub fn parse_status(value: &str) -> (result: Result<ProposalStatus, RepositoryError>)
    ensures
        match result {
            Ok(read) => value@ == status_name_text(read),
            Err(error) => error == RepositoryError::Internal && forall|x: ProposalStatus|
                value@ != #[trigger] status_name_text(x),
        },
{
    if same_text(value, "pending") {
        Ok(ProposalStatus::Pending)
    } else if same_text(value, "accepted") {
        Ok(ProposalStatus::Accepted)
    } else if same_text(value, "rejected") {
        Ok(ProposalStatus::Rejected)
    } else if same_text(value, "expired") {
        Ok(ProposalStatus::Expired)
    } else {
        Err(RepositoryError::Internal)
    }
}

/// The stored names of statuses tell them apart.
pub proof fn status_names_differ(a: ProposalStatus, b: ProposalStatus)
    requires
        status_name_text(a) == status_name_text(b),
    ensures
        a == b,
{
    reveal_strlit("pending");
    reveal_strlit("accepted");
    reveal_strlit("rejected");
    reveal_strlit("expired");
    assert("pending"@.len() == 7);
    assert("accepted"@.len() == 8);
    assert("rejected"@.len() == 8);
    assert("expired"@.len() == 7);
    assert("accepted"@[0] == 'a');
    assert("expired"@[0] == 'e');
    assert("pending"@[0] == 'p');
    assert("rejected"@[0] == 'r');
}

} // verus!
