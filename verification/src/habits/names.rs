//! The names under which the database stores the enumerations of habits.
use vstd::prelude::*;

use crate::habits::model::{
    HabitMissedCancellationReason, HabitMissedPolicy, HabitMissedResolutionAction,
    HabitMissedResumeAction, HabitOutcomeStatus, HabitRepositoryError, OccurrenceState,
};
use crate::text::same_text;
use crate::time::{Instant, Uuid};

verus! {

/// The stored name of an outcome's status.
pub open spec fn outcome_status_name_text(value: HabitOutcomeStatus) -> Seq<char> {
    match value {
        HabitOutcomeStatus::Unresolved => "unresolved"@,
        HabitOutcomeStatus::Partial => "partial"@,
        HabitOutcomeStatus::Completed => "completed"@,
        HabitOutcomeStatus::Skipped => "skipped"@,
    }
}

/// The stored name of an outcome's status.
pub fn outcome_status_name(value: HabitOutcomeStatus) -> (result: &'static str)
    ensures
        result@ == outcome_status_name_text(value),
{
    match value {
        HabitOutcomeStatus::Unresolved => "unresolved",
        HabitOutcomeStatus::Partial => "partial",
        HabitOutcomeStatus::Completed => "completed",
        HabitOutcomeStatus::Skipped => "skipped",
    }
}

/// Reads an outcome's status from its stored name.
pub fn parse_outcome_status(value: &str) -> (result: Result<HabitOutcomeStatus, HabitRepositoryError>)
    ensures
        match result {
            Ok(read) => value@ == outcome_status_name_text(read),
            Err(error) => error == HabitRepositoryError::Internal && forall|x: HabitOutcomeStatus|
                value@ != #[trigger] outcome_status_name_text(x),
        },
{
    if same_text(value, "unresolved") {
        Ok(HabitOutcomeStatus::Unresolved)
    } else if same_text(value, "partial") {
        Ok(HabitOutcomeStatus::Partial)
    } else if same_text(value, "completed") {
        Ok(HabitOutcomeStatus::Completed)
    } else if same_text(value, "skipped") {
        Ok(HabitOutcomeStatus::Skipped)
    } else {
        Err(HabitRepositoryError::Internal)
    }
}

/// No two have the same stored name, so reading a stored name gives back the
/// value it was written for.
pub proof fn outcome_status_name_text_is_injective(a: HabitOutcomeStatus, b: HabitOutcomeStatus)
    ensures
        outcome_status_name_text(a) == outcome_status_name_text(b) ==> a == b,
{
    reveal_strlit("unresolved");
    reveal_strlit("partial");
    reveal_strlit("completed");
    reveal_strlit("skipped");
    assert("unresolved"@.len() == 10);
    assert("partial"@.len() == 7);
    assert("completed"@.len() == 9);
    assert("skipped"@.len() == 7);
    assert("partial"@[0] != "skipped"@[0]);
}

/// The stored name of a policy for missed occurrences.
pub open spec fn missed_policy_name_text(value: HabitMissedPolicy) -> Seq<char> {
    match value {
        HabitMissedPolicy::Skip => "skip"@,
        HabitMissedPolicy::Carry => "carry"@,
        HabitMissedPolicy::ReduceFrequency => "reduce_frequency"@,
        HabitMissedPolicy::Ask => "ask"@,
    }
}

/// The stored name of a policy for missed occurrences.
pub fn missed_policy_name(value: HabitMissedPolicy) -> (result: &'static str)
    ensures
        result@ == missed_policy_name_text(value),
{
    match value {
        HabitMissedPolicy::Skip => "skip",
        HabitMissedPolicy::Carry => "carry",
        HabitMissedPolicy::ReduceFrequency => "reduce_frequency",
        HabitMissedPolicy::Ask => "ask",
    }
}

/// Reads a policy for missed occurrences from its stored name.
pub fn parse_missed_policy(value: &str) -> (result: Result<HabitMissedPolicy, HabitRepositoryError>)
    ensures
        match result {
            Ok(read) => value@ == missed_policy_name_text(read),
            Err(error) => error == HabitRepositoryError::Internal && forall|x: HabitMissedPolicy|
                value@ != #[trigger] missed_policy_name_text(x),
        },
{
    if same_text(value, "skip") {
        Ok(HabitMissedPolicy::Skip)
    } else if same_text(value, "carry") {
        Ok(HabitMissedPolicy::Carry)
    } else if same_text(value, "reduce_frequency") {
        Ok(HabitMissedPolicy::ReduceFrequency)
    } else if same_text(value, "ask") {
        Ok(HabitMissedPolicy::Ask)
    } else {
        Err(HabitRepositoryError::Internal)
    }
}

/// No two have the same stored name, so reading a stored name gives back the
/// value it was written for.
pub proof fn missed_policy_name_text_is_injective(a: HabitMissedPolicy, b: HabitMissedPolicy)
    ensures
        missed_policy_name_text(a) == missed_policy_name_text(b) ==> a == b,
{
    reveal_strlit("skip");
    reveal_strlit("carry");
    reveal_strlit("reduce_frequency");
    reveal_strlit("ask");
    assert("skip"@.len() == 4);
    assert("carry"@.len() == 5);
    assert("reduce_frequency"@.len() == 16);
    assert("ask"@.len() == 3);
}

/// The stored name of a reason of cancellation.
pub open spec fn missed_cancellation_reason_name_text(value: HabitMissedCancellationReason) -> Seq<char> {
    match value {
        HabitMissedCancellationReason::SourceCompleted => "source_completed"@,
        HabitMissedCancellationReason::SourceSkipped => "source_skipped"@,
        HabitMissedCancellationReason::SourcePaused => "source_paused"@,
        HabitMissedCancellationReason::SourceObsolete => "source_obsolete"@,
    }
}

/// The stored name of a reason of cancellation.
pub fn missed_cancellation_reason_name(value: HabitMissedCancellationReason) -> (result: &'static str)
    ensures
        result@ == missed_cancellation_reason_name_text(value),
{
    match value {
        HabitMissedCancellationReason::SourceCompleted => "source_completed",
        HabitMissedCancellationReason::SourceSkipped => "source_skipped",
        HabitMissedCancellationReason::SourcePaused => "source_paused",
        HabitMissedCancellationReason::SourceObsolete => "source_obsolete",
    }
}

/// Reads a reason of cancellation from its stored name.
pub fn parse_missed_cancellation_reason(value: &str) -> (result: Result<HabitMissedCancellationReason, HabitRepositoryError>)
    ensures
        match result {
            Ok(read) => value@ == missed_cancellation_reason_name_text(read),
            Err(error) => error == HabitRepositoryError::Internal && forall|x: HabitMissedCancellationReason|
                value@ != #[trigger] missed_cancellation_reason_name_text(x),
        },
{
    if same_text(value, "source_completed") {
        Ok(HabitMissedCancellationReason::SourceCompleted)
    } else if same_text(value, "source_skipped") {
        Ok(HabitMissedCancellationReason::SourceSkipped)
    } else if same_text(value, "source_paused") {
        Ok(HabitMissedCancellationReason::SourcePaused)
    } else if same_text(value, "source_obsolete") {
        Ok(HabitMissedCancellationReason::SourceObsolete)
    } else {
        Err(HabitRepositoryError::Internal)
    }
}

/// No two have the same stored name, so reading a stored name gives back the
/// value it was written for.
pub proof fn missed_cancellation_reason_name_text_is_injective(a: HabitMissedCancellationReason, b: HabitMissedCancellationReason)
    ensures
        missed_cancellation_reason_name_text(a) == missed_cancellation_reason_name_text(b) ==> a == b,
{
    reveal_strlit("source_completed");
    reveal_strlit("source_skipped");
    reveal_strlit("source_paused");
    reveal_strlit("source_obsolete");
    assert("source_completed"@.len() == 16);
    assert("source_skipped"@.len() == 14);
    assert("source_paused"@.len() == 13);
    assert("source_obsolete"@.len() == 15);
}

/// The stored name of an action to take up again.
pub open spec fn missed_resume_action_name_text(value: HabitMissedResumeAction) -> Seq<char> {
    match value {
        HabitMissedResumeAction::DecisionRequired => "decision_required"@,
        HabitMissedResumeAction::Skip => "skip"@,
        HabitMissedResumeAction::Carry => "carry"@,
        HabitMissedResumeAction::ReduceFrequency => "reduce_frequency"@,
    }
}

/// The stored name of an action to take up again.
pub fn missed_resume_action_name(value: HabitMissedResumeAction) -> (result: &'static str)
    ensures
        result@ == missed_resume_action_name_text(value),
{
    match value {
        HabitMissedResumeAction::DecisionRequired => "decision_required",
        HabitMissedResumeAction::Skip => "skip",
        HabitMissedResumeAction::Carry => "carry",
        HabitMissedResumeAction::ReduceFrequency => "reduce_frequency",
    }
}

/// Reads an action to take up again from its stored name.
pub fn parse_missed_resume_action(value: &str) -> (result: Result<HabitMissedResumeAction, HabitRepositoryError>)
    ensures
        match result {
            Ok(read) => value@ == missed_resume_action_name_text(read),
            Err(error) => error == HabitRepositoryError::Internal && forall|x: HabitMissedResumeAction|
                value@ != #[trigger] missed_resume_action_name_text(x),
        },
{
    if same_text(value, "decision_required") {
        Ok(HabitMissedResumeAction::DecisionRequired)
    } else if same_text(value, "skip") {
        Ok(HabitMissedResumeAction::Skip)
    } else if same_text(value, "carry") {
        Ok(HabitMissedResumeAction::Carry)
    } else if same_text(value, "reduce_frequency") {
        Ok(HabitMissedResumeAction::ReduceFrequency)
    } else {
        Err(HabitRepositoryError::Internal)
    }
}

/// No two have the same stored name, so reading a stored name gives back the
/// value it was written for.
pub proof fn missed_resume_action_name_text_is_injective(a: HabitMissedResumeAction, b: HabitMissedResumeAction)
    ensures
        missed_resume_action_name_text(a) == missed_resume_action_name_text(b) ==> a == b,
{
    reveal_strlit("decision_required");
    reveal_strlit("skip");
    reveal_strlit("carry");
    reveal_strlit("reduce_frequency");
    assert("decision_required"@.len() == 17);
    assert("skip"@.len() == 4);
    assert("carry"@.len() == 5);
    assert("reduce_frequency"@.len() == 16);
}

/// The name of a state under which an occurrence is published.
pub open spec fn occurrence_state_text(state: OccurrenceState) -> Seq<char> {
    match state {
        OccurrenceState::Generated => "generated"@,
        OccurrenceState::Completed => "completed"@,
        OccurrenceState::Paused => "paused"@,
        OccurrenceState::Skipped => "skipped"@,
    }
}

/// Different states of an occurrence have different names.
pub proof fn occurrence_state_text_is_injective(a: OccurrenceState, b: OccurrenceState)
    requires
        occurrence_state_text(a) == occurrence_state_text(b),
    ensures
        a == b,
{
    reveal_strlit("generated");
    reveal_strlit("completed");
    reveal_strlit("paused");
    reveal_strlit("skipped");
    assert("generated"@[0] == 'g');
    assert("completed"@[0] == 'c');
    assert("paused"@.len() == 6);
    assert("skipped"@.len() == 7);
}

/// The stored name of the state of an occurrence in a published schedule.
pub fn occurrence_state_name(state: OccurrenceState) -> (result: &'static str)
    ensures
        result@ == occurrence_state_text(state),
{
    match state {
        OccurrenceState::Generated => "generated",
        OccurrenceState::Completed => "completed",
        OccurrenceState::Paused => "paused",
        OccurrenceState::Skipped => "skipped",
    }
}

/// The stored name of what is done about a missed occurrence.
pub open spec fn missed_action_name_text(action: HabitMissedResolutionAction) -> Seq<char> {
    match action {
        HabitMissedResolutionAction::DecisionRequired => "decision_required"@,
        HabitMissedResolutionAction::ReductionPending => "reduction_pending"@,
        HabitMissedResolutionAction::Cancelled { .. } => "cancelled"@,
        HabitMissedResolutionAction::Skip => "skip"@,
        HabitMissedResolutionAction::Carry { .. } => "carry"@,
        HabitMissedResolutionAction::ReduceFrequency { .. } => "reduce_frequency"@,
    }
}

/// The stored name of what is done about a missed occurrence.
pub fn missed_action_name(action: &HabitMissedResolutionAction) -> (result: &'static str)
    ensures
        result@ == missed_action_name_text(*action),
{
    match action {
        HabitMissedResolutionAction::DecisionRequired => "decision_required",
        HabitMissedResolutionAction::ReductionPending => "reduction_pending",
        HabitMissedResolutionAction::Cancelled { .. } => "cancelled",
        HabitMissedResolutionAction::Skip => "skip",
        HabitMissedResolutionAction::Carry { .. } => "carry",
        HabitMissedResolutionAction::ReduceFrequency { .. } => "reduce_frequency",
    }
}

/// The columns in which the database stores what is done about a missed occurrence.
#[derive(Debug)]
pub struct MissedActionColumns {
    pub action: &'static str,
    pub cancellation_reason: Option<&'static str>,
    pub cancelled_resume_action: Option<&'static str>,
    pub carry_start: Option<Instant>,
    pub carry_end: Option<Instant>,
    pub suppressed: Vec<Uuid>,
}

/// Whether two actions are the same.
pub open spec fn action_same(
    a: HabitMissedResolutionAction,
    b: HabitMissedResolutionAction,
) -> bool {
    match (a, b) {
        (
            HabitMissedResolutionAction::ReduceFrequency { suppressed_planner_occurrence_ids: x },
            HabitMissedResolutionAction::ReduceFrequency { suppressed_planner_occurrence_ids: y },
        ) => x@ == y@,
        _ => a == b,
    }
}

/// The characters of a column that may be absent.
pub open spec fn column_text(value: Option<&'static str>) -> Option<Seq<char>> {
    match value {
        Some(text) => Some(text@),
        None => None,
    }
}

/// Whether the columns hold exactly this action: its name, the fields that it has,
/// and nothing in the columns of the fields that it does not have.
pub open spec fn columns_hold(
    name: Seq<char>,
    cancellation_reason: Option<Seq<char>>,
    cancelled_resume_action: Option<Seq<char>>,
    carry_start: Option<Instant>,
    carry_end: Option<Instant>,
    suppressed: Seq<Uuid>,
    action: HabitMissedResolutionAction,
) -> bool {
    &&& name == missed_action_name_text(action)
    &&& match action {
        HabitMissedResolutionAction::Cancelled { reason, resume_action } => {
            &&& cancellation_reason == Some(missed_cancellation_reason_name_text(reason))
            &&& cancelled_resume_action == Some(missed_resume_action_name_text(resume_action))
        },
        _ => cancellation_reason is None && cancelled_resume_action is None,
    }
    &&& match action {
        HabitMissedResolutionAction::Carry { window_start, window_end } => {
            carry_start == Some(window_start) && carry_end == Some(window_end)
        },
        _ => carry_start is None && carry_end is None,
    }
    &&& match action {
        HabitMissedResolutionAction::ReduceFrequency { suppressed_planner_occurrence_ids } => {
            suppressed == suppressed_planner_occurrence_ids@
        },
        _ => suppressed.len() == 0,
    }
}

/// The columns in which the database stores an action.
pub fn missed_action_columns(action: &HabitMissedResolutionAction) -> (result: MissedActionColumns)
    ensures
        columns_hold(
            result.action@,
            column_text(result.cancellation_reason),
            column_text(result.cancelled_resume_action),
            result.carry_start,
            result.carry_end,
            result.suppressed@,
            *action,
        ),
{
    let (cancellation_reason, cancelled_resume_action): (
        Option<&'static str>,
        Option<&'static str>,
    ) = match action {
        HabitMissedResolutionAction::Cancelled { reason, resume_action } => (
            Some(missed_cancellation_reason_name(*reason)),
            Some(missed_resume_action_name(*resume_action)),
        ),
        _ => (None, None),
    };
    let (carry_start, carry_end): (Option<Instant>, Option<Instant>) = match action {
        HabitMissedResolutionAction::Carry { window_start, window_end } => (
            Some(*window_start),
            Some(*window_end),
        ),
        _ => (None, None),
    };
    let suppressed: Vec<Uuid> = match action {
        HabitMissedResolutionAction::ReduceFrequency { suppressed_planner_occurrence_ids } =>
        suppressed_planner_occurrence_ids.clone(),
        _ => Vec::new(),
    };
    MissedActionColumns {
        action: missed_action_name(action),
        cancellation_reason,
        cancelled_resume_action,
        carry_start,
        carry_end,
        suppressed,
    }
}

/// The characters of a text that may be absent.
pub open spec fn view_text(value: Option<&str>) -> Option<Seq<char>> {
    match value {
        Some(text) => Some(text@),
        None => None,
    }
}

/// Whether an action is stored as one row: a reduction names one occurrence.
pub open spec fn action_storable(action: HabitMissedResolutionAction) -> bool {
    match action {
        HabitMissedResolutionAction::ReduceFrequency { suppressed_planner_occurrence_ids } => {
            suppressed_planner_occurrence_ids@.len() == 1
        },
        _ => true,
    }
}

/// Reads an action from the columns in which the database stores it. Columns that
/// hold no action, or hold more than one action has, are an error.
pub fn parse_missed_action(
    value: &str,
    cancellation_reason: Option<&str>,
    cancelled_resume_action: Option<&str>,
    carry_start: Option<Instant>,
    carry_end: Option<Instant>,
    suppressed: Vec<Uuid>,
) -> (result: Result<HabitMissedResolutionAction, HabitRepositoryError>)
    ensures
        match result {
            Ok(action) => action_storable(action) && columns_hold(
                value@,
                view_text(cancellation_reason),
                view_text(cancelled_resume_action),
                carry_start,
                carry_end,
                suppressed@,
                action,
            ),
            Err(error) => error == HabitRepositoryError::Internal && forall|
                action: HabitMissedResolutionAction,
            |
                action_storable(action) ==> !#[trigger] columns_hold(
                    value@,
                    view_text(cancellation_reason),
                    view_text(cancelled_resume_action),
                    carry_start,
                    carry_end,
                    suppressed@,
                    action,
                ),
        },
{
    proof {
        missed_action_names_differ();
    }
    let plain: bool = cancellation_reason.is_none() && cancelled_resume_action.is_none();
    let standing: bool = carry_start.is_none() && carry_end.is_none();
    let none_suppressed: bool = suppressed.len() == 0;
    if same_text(value, "decision_required") {
        if plain && standing && none_suppressed {
            Ok(HabitMissedResolutionAction::DecisionRequired)
        } else {
            Err(HabitRepositoryError::Internal)
        }
    } else if same_text(value, "reduction_pending") {
        if plain && standing && none_suppressed {
            Ok(HabitMissedResolutionAction::ReductionPending)
        } else {
            Err(HabitRepositoryError::Internal)
        }
    } else if same_text(value, "skip") {
        if plain && standing && none_suppressed {
            Ok(HabitMissedResolutionAction::Skip)
        } else {
            Err(HabitRepositoryError::Internal)
        }
    } else if same_text(value, "carry") {
        match (carry_start, carry_end) {
            (Some(window_start), Some(window_end)) => if plain && none_suppressed {
                Ok(HabitMissedResolutionAction::Carry { window_start, window_end })
            } else {
                Err(HabitRepositoryError::Internal)
            },
            _ => Err(HabitRepositoryError::Internal),
        }
    } else if same_text(value, "reduce_frequency") {
        if plain && standing && suppressed.len() == 1 {
            Ok(
                HabitMissedResolutionAction::ReduceFrequency {
                    suppressed_planner_occurrence_ids: suppressed,
                },
            )
        } else {
            Err(HabitRepositoryError::Internal)
        }
    } else if same_text(value, "cancelled") {
        match (cancellation_reason, cancelled_resume_action) {
            (Some(reason), Some(resume_action)) => if standing && none_suppressed {
                let reason: HabitMissedCancellationReason = parse_missed_cancellation_reason(
                    reason,
                )?;
                let resume_action: HabitMissedResumeAction = parse_missed_resume_action(
                    resume_action,
                )?;
                Ok(HabitMissedResolutionAction::Cancelled { reason, resume_action })
            } else {
                Err(HabitRepositoryError::Internal)
            },
            _ => Err(HabitRepositoryError::Internal),
        }
    } else {
        Err(HabitRepositoryError::Internal)
    }
}

/// The stored names of the actions are pairwise different.
proof fn missed_action_names_differ()
    ensures
        "decision_required"@ != "reduction_pending"@,
        "decision_required"@ != "cancelled"@,
        "decision_required"@ != "skip"@,
        "decision_required"@ != "carry"@,
        "decision_required"@ != "reduce_frequency"@,
        "reduction_pending"@ != "cancelled"@,
        "reduction_pending"@ != "skip"@,
        "reduction_pending"@ != "carry"@,
        "reduction_pending"@ != "reduce_frequency"@,
        "cancelled"@ != "skip"@,
        "cancelled"@ != "carry"@,
        "cancelled"@ != "reduce_frequency"@,
        "skip"@ != "carry"@,
        "skip"@ != "reduce_frequency"@,
        "carry"@ != "reduce_frequency"@,
{
    reveal_strlit("decision_required");
    reveal_strlit("reduction_pending");
    reveal_strlit("cancelled");
    reveal_strlit("skip");
    reveal_strlit("carry");
    reveal_strlit("reduce_frequency");
    assert("decision_required"@.len() == 17);
    assert("reduction_pending"@.len() == 17);
    assert("decision_required"@[0] != "reduction_pending"@[0]);
    assert("cancelled"@.len() == 9);
    assert("skip"@.len() == 4);
    assert("carry"@.len() == 5);
    assert("reduce_frequency"@.len() == 16);
}

/// What is stored of an action is read back as that action: columns that hold an
/// action hold no other.
pub proof fn stored_action_reads_back(
    name: Seq<char>,
    cancellation_reason: Option<Seq<char>>,
    cancelled_resume_action: Option<Seq<char>>,
    carry_start: Option<Instant>,
    carry_end: Option<Instant>,
    suppressed: Seq<Uuid>,
    written: HabitMissedResolutionAction,
    read: HabitMissedResolutionAction,
)
    requires
        columns_hold(
            name,
            cancellation_reason,
            cancelled_resume_action,
            carry_start,
            carry_end,
            suppressed,
            written,
        ),
        columns_hold(
            name,
            cancellation_reason,
            cancelled_resume_action,
            carry_start,
            carry_end,
            suppressed,
            read,
        ),
    ensures
        action_same(written, read),
{
    missed_action_names_differ();
    match (written, read) {
        (
            HabitMissedResolutionAction::Cancelled { reason: r1, resume_action: a1 },
            HabitMissedResolutionAction::Cancelled { reason: r2, resume_action: a2 },
        ) => {
            missed_cancellation_reason_name_text_is_injective(r1, r2);
            missed_resume_action_name_text_is_injective(a1, a2);
        },
        _ => {},
    }
}

} // verus!
