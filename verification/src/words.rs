//! That the words by which things are stored mean the same wherever they are read.
use vstd::prelude::*;

use crate::habits::missed::{policy_of_resume, resume_of};
use crate::habits::model::{
    HabitMissedPolicy, HabitMissedResolutionAction, HabitMissedResumeAction, HabitOutcome,
    HabitOutcomeStatus,
};
use crate::habits::names::{
    missed_action_name_text, missed_policy_name_text, missed_resume_action_name_text,
};
use crate::habits::outcomes::{audit_tells, habit_refusal, HabitAudit, HabitItemRow};
use crate::habits::reconcile::closed_status_text;
use crate::habits::recurrence::{outcome_step, ContextView, OutcomeEvidenceRow};
use crate::habits::rows::{outcome_reads, OutcomeRow};
use crate::items::model::{ItemKind, ItemStatus};
use crate::items::names::{kind_name_text, status_name_text};
use crate::json::Json;
use crate::proposals::application::{operation_of, part, ProposalOperation};
use crate::time::Uuid;

verus! {

/// A report that is stored is understood when the planner is told of it: a completed occurrence
/// is taken for done, a skipped one is left out, and one that nobody has decided on is refused.
pub proof fn stored_reports_are_understood(
    outcome: HabitOutcome,
    stored: OutcomeRow,
    row: OutcomeEvidenceRow,
    context: ContextView,
)
    requires
        outcome_reads(outcome, stored),
        row.status@ == stored.status@,
        row.content_valid,
    ensures
        outcome.status == HabitOutcomeStatus::Completed ==> outcome_step(context, row) is Ok
            && outcome_step(context, row)->Ok_0.completed == context.completed.insert(
            row.planner_occurrence_id,
        ),
        outcome.status == HabitOutcomeStatus::Skipped ==> outcome_step(context, row) is Ok
            && outcome_step(context, row)->Ok_0.exceptions.len() == context.exceptions.len() + 1,
        outcome.status == HabitOutcomeStatus::Unresolved ==> outcome_step(context, row) is Err,
        outcome.status == HabitOutcomeStatus::Partial && outcome_step(context, row) is Ok
            ==> outcome_step(context, row)->Ok_0.completed == context.completed
            && outcome_step(context, row)->Ok_0.exceptions == context.exceptions,
{
    lemma_outcome_words();
}

proof fn lemma_outcome_words()
    ensures
        "partial"@ != "completed"@,
        "partial"@ != "skipped"@,
        "completed"@ != "skipped"@,
        "unresolved"@ != "partial"@,
        "unresolved"@ != "completed"@,
        "unresolved"@ != "skipped"@,
{
    reveal_strlit("partial");
    reveal_strlit("completed");
    reveal_strlit("skipped");
    reveal_strlit("unresolved");
    assert("partial"@[0] != "completed"@[0]);
    assert("partial"@[0] != "skipped"@[0]);
    assert("completed"@[0] != "skipped"@[0]);
    assert("unresolved"@[0] == 'u');
    assert("partial"@[0] == 'p');
    assert("completed"@[0] == 'c');
    assert("skipped"@[0] == 's');
}

/// A request about a habit is taken for items of the kind habit, by the word that the kind is
/// stored under.
pub proof fn habits_are_known_by_their_kind(habit_id: Uuid, row: HabitItemRow, kind: ItemKind)
    requires
        row.kind@ == kind_name_text(kind),
        row.has_recurrence,
    ensures
        (habit_refusal(habit_id, Some(row)) is None) <==> kind == ItemKind::Habit,
{
    crate::items::names::kind_name_text_is_injective(kind, ItemKind::Habit);
}

/// The statuses that end an item or block it are those that are stored under these words, and
/// no others.
pub proof fn closed_items_are_known_by_their_status(status: ItemStatus)
    ensures
        closed_status_text(status_name_text(status)) <==> status == ItemStatus::Completed || status
            == ItemStatus::Skipped || status == ItemStatus::Cancelled || status
            == ItemStatus::Blocked,
{
    crate::items::names::status_name_text_is_injective(status, ItemStatus::Completed);
    crate::items::names::status_name_text_is_injective(status, ItemStatus::Skipped);
    crate::items::names::status_name_text_is_injective(status, ItemStatus::Cancelled);
    crate::items::names::status_name_text_is_injective(status, ItemStatus::Blocked);
}

/// A policy, the action that follows from it, and what is taken up again of the action share
/// one word, but for the policy to ask, whose action is a decision that is required, and for a
/// reduction that waits.
pub proof fn policies_and_actions_share_their_words(
    action: HabitMissedResolutionAction,
    resume: HabitMissedResumeAction,
)
    ensures
        resume != HabitMissedResumeAction::DecisionRequired ==> missed_policy_name_text(
            policy_of_resume(resume),
        ) == missed_resume_action_name_text(resume),
        policy_of_resume(resume) == HabitMissedPolicy::Ask
            <==> missed_resume_action_name_text(resume) == "decision_required"@,
        !(action is Cancelled) && !(action is ReductionPending) ==> missed_action_name_text(action)
            == missed_resume_action_name_text(resume_of(action)->0),
        action is Carry ==> missed_action_name_text(action) == "carry"@,
{
    reveal_strlit("skip");
    reveal_strlit("carry");
    reveal_strlit("reduce_frequency");
    reveal_strlit("decision_required");
    assert("skip"@.len() != "decision_required"@.len());
    assert("carry"@.len() != "decision_required"@.len());
    assert("reduce_frequency"@.len() != "decision_required"@.len());
}

/// A command is stored under the word by which change sets name it.
pub proof fn operations_share_their_words(value: Json, operation: ProposalOperation)
    requires
        part(value, 0, "operation"@) is Some,
        part(value, 0, "operation"@)->0 is Text,
        part(value, 0, "operation"@)->0->Text_0@ == crate::review::errors::operation_name_text(
            operation,
        ),
    ensures
        operation_of(value) == Some(operation),
{
    reveal_strlit("create_item");
    reveal_strlit("replace_item");
    reveal_strlit("trash_item");
    reveal_strlit("restore_item");
    assert("create_item"@[0] == 'c');
    assert("trash_item"@[0] == 't');
    assert("replace_item"@[0] == 'r' && "replace_item"@[2] == 'p');
    assert("restore_item"@[0] == 'r' && "restore_item"@[2] == 's');
}

/// The entry of the audit log names what was done to what, and from which revision to which.
pub proof fn audit_names_what_was_done(
    audit: HabitAudit,
    operation_type: Seq<char>,
    entity_type: Seq<char>,
    entity_id: Uuid,
    base: u64,
    result: u64,
)
    requires
        audit_tells(audit, operation_type, entity_type, entity_id, base, result),
    ensures
        audit.operation_type@ == operation_type,
        audit.entity_type@ == entity_type,
        audit.entity_id == entity_id,
        audit.result_revision == result,
        base == 0 ==> audit.base_revision is None,
        base > 0 ==> audit.base_revision is Some && audit.base_revision->0 == base,
{
}

} // verus!
