//! That the planner is handed the history of habits as it was.
use vstd::prelude::*;

use crate::habits::model::HabitMissedResolutionAction;
use crate::habits::recurrence::{
    anchor_fold, carried, empty_context, left_out, missed_fold, missed_step, outcome_fold,
    pause_fold, recurrence_result, suppressed_fold, without_exceptions, AnchorRow, ContextView,
    MissedEvidenceRow, MissedState, OutcomeEvidenceRow, PauseRow, RecurrenceException,
    RecurrenceExceptionAction, RecurrencePartialProgress, RecurrencePause,
};
use crate::habits::zones::PublishedHabitEvidenceError;
use crate::time::{Instant, Uuid};

verus! {

/// Whether a habit rests at an instant, according to what is stored.
pub open spec fn rests(rows: Seq<PauseRow>, habit_id: Uuid, at: Instant) -> bool {
    exists|i: int|
        0 <= i < rows.len() && (#[trigger] rows[i]).habit_id == habit_id && rows[i].started_at
            <= at && (rows[i].ended_at is Some ==> at < rows[i].ended_at->0)
}

/// Whether a habit rests at an instant, according to what the planner is handed.
pub open spec fn handed_to_rest(pauses: Seq<RecurrencePause>, habit_id: Uuid, at: Instant) -> bool {
    exists|k: int|
        0 <= k < pauses.len() && (#[trigger] pauses[k]).item_id == habit_id && pauses[k].start <= at
            < pauses[k].end
}

/// Whether a number of nanoseconds is a whole number of microseconds.
pub open spec fn in_micros(value: Instant) -> bool {
    value as int % 1_000 == 0
}

/// Whether the times of a pause are whole numbers of microseconds, as those that the database
/// keeps are.
pub open spec fn kept_in_micros(row: PauseRow) -> bool {
    in_micros(row.started_at) && (row.ended_at is Some ==> in_micros(row.ended_at->0))
}

proof fn lemma_rest(
    context: ContextView,
    rows: Seq<PauseRow>,
    count: nat,
    horizon_start: Instant,
    horizon_end: Instant,
    after: ContextView,
    habit_id: Uuid,
    at: Instant,
)
    requires
        count <= rows.len(),
        context.pauses.len() == 0,
        in_micros(horizon_start),
        in_micros(horizon_end),
        forall|i: int| 0 <= i < rows.len() ==> kept_in_micros(#[trigger] rows[i]),
        pause_fold(context, rows, count, horizon_start, horizon_end) == Ok::<
            ContextView,
            PublishedHabitEvidenceError,
        >(after),
        horizon_start <= at < horizon_end,
    ensures
        handed_to_rest(after.pauses, habit_id, at) == rests(rows.take(count as int), habit_id, at),
    decreases count,
{
    if count > 0 {
        let n = (count - 1) as nat;
        let row = rows[n as int];
        let before = pause_fold(context, rows, n, horizon_start, horizon_end)->Ok_0;
        lemma_rest(context, rows, n, horizon_start, horizon_end, before, habit_id, at);
        assert(kept_in_micros(row));
        let now = rows.take(count as int);
        let then = rows.take(n as int);
        assert(now[n as int] == row);
        assert(forall|i: int| 0 <= i < n ==> now[i] == #[trigger] then[i]);
        if rests(then, habit_id, at) {
            let i = choose|i: int|
                0 <= i < then.len() && (#[trigger] then[i]).habit_id == habit_id
                    && then[i].started_at <= at && (then[i].ended_at is Some ==> at
                    < then[i].ended_at->0);
            assert(now[i] == then[i]);
        }
        if rests(now, habit_id, at) && !rests(then, habit_id, at) {
            let i = choose|i: int|
                0 <= i < now.len() && (#[trigger] now[i]).habit_id == habit_id && now[i].started_at
                    <= at && (now[i].ended_at is Some ==> at < now[i].ended_at->0);
            if i < n {
                assert(now[i] == then[i]);
            }
            assert(i == n);
            assert(after.pauses[before.pauses.len() as int].item_id == habit_id);
        }
        if handed_to_rest(before.pauses, habit_id, at) {
            let k = choose|k: int|
                0 <= k < before.pauses.len() && (#[trigger] before.pauses[k]).item_id == habit_id
                    && before.pauses[k].start <= at < before.pauses[k].end;
            assert(after.pauses[k] == before.pauses[k]);
        }
        if handed_to_rest(after.pauses, habit_id, at) && !handed_to_rest(
            before.pauses,
            habit_id,
            at,
        ) {
            let k = choose|k: int|
                0 <= k < after.pauses.len() && (#[trigger] after.pauses[k]).item_id == habit_id
                    && after.pauses[k].start <= at < after.pauses[k].end;
            if k < before.pauses.len() {
                assert(after.pauses[k] == before.pauses[k]);
            }
            assert(now[n as int].habit_id == habit_id);
        }
    } else {
        assert(rows.take(0).len() == 0);
    }
}

proof fn lemma_outcomes_keep(context: ContextView, rows: Seq<OutcomeEvidenceRow>, count: nat)
    requires
        outcome_fold(context, rows, count) is Ok,
    ensures
        outcome_fold(context, rows, count)->Ok_0.anchors == context.anchors,
        outcome_fold(context, rows, count)->Ok_0.pauses == context.pauses,
    decreases count,
{
    if count > 0 {
        lemma_outcomes_keep(context, rows, (count - 1) as nat);
    }
}

proof fn lemma_suppressed_keep(state: MissedState, habit_id: Uuid, ids: Seq<Uuid>, count: nat)
    ensures
        suppressed_fold(state, habit_id, ids, count).context.anchors == state.context.anchors,
        suppressed_fold(state, habit_id, ids, count).context.pauses == state.context.pauses,
        suppressed_fold(state, habit_id, ids, count).context.completed == state.context.completed,
    decreases count,
{
    if count > 0 {
        lemma_suppressed_keep(state, habit_id, ids, (count - 1) as nat);
    }
}

proof fn lemma_missed_keep(
    state: MissedState,
    rows: Seq<MissedEvidenceRow>,
    count: nat,
    horizon_start: Instant,
    horizon_end: Instant,
)
    requires
        missed_fold(state, rows, count, horizon_start, horizon_end) is Ok,
    ensures
        missed_fold(state, rows, count, horizon_start, horizon_end)->Ok_0.context.anchors
            == state.context.anchors,
        missed_fold(state, rows, count, horizon_start, horizon_end)->Ok_0.context.pauses
            == state.context.pauses,
        missed_fold(state, rows, count, horizon_start, horizon_end)->Ok_0.context.completed
            == state.context.completed,
    decreases count,
{
    if count > 0 {
        lemma_missed_keep(state, rows, (count - 1) as nat, horizon_start, horizon_end);
        let before = missed_fold(
            state,
            rows,
            (count - 1) as nat,
            horizon_start,
            horizon_end,
        )->Ok_0;
        let row = rows[count - 1];
        match row.resolution.action {
            HabitMissedResolutionAction::ReduceFrequency { suppressed_planner_occurrence_ids } => {
                lemma_suppressed_keep(
                    before,
                    row.evidence.habit_id,
                    suppressed_planner_occurrence_ids@,
                    suppressed_planner_occurrence_ids@.len(),
                );
            },
            _ => {},
        }
    }
}

proof fn lemma_anchors_keep(context: ContextView, rows: Seq<AnchorRow>, count: nat)
    requires
        anchor_fold(context, rows, count) is Ok,
    ensures
        anchor_fold(context, rows, count)->Ok_0.exceptions == context.exceptions,
        anchor_fold(context, rows, count)->Ok_0.partial_progress == context.partial_progress,
        anchor_fold(context, rows, count)->Ok_0.completed == context.completed,
        anchor_fold(context, rows, count)->Ok_0.pauses == context.pauses,
    decreases count,
{
    if count > 0 {
        lemma_anchors_keep(context, rows, (count - 1) as nat);
    }
}

proof fn lemma_pauses_keep(
    context: ContextView,
    rows: Seq<PauseRow>,
    count: nat,
    horizon_start: Instant,
    horizon_end: Instant,
)
    requires
        pause_fold(context, rows, count, horizon_start, horizon_end) is Ok,
    ensures
        ({
            let after = pause_fold(context, rows, count, horizon_start, horizon_end)->Ok_0;
            &&& after.exceptions == context.exceptions
            &&& after.partial_progress == context.partial_progress
            &&& after.completed == context.completed
            &&& after.anchors == context.anchors
        }),
    decreases count,
{
    if count > 0 {
        lemma_pauses_keep(context, rows, (count - 1) as nat, horizon_start, horizon_end);
    }
}

/// Within the horizon the planner lets a habit rest exactly when a stored pause of it says so:
/// a pause is neither lost nor made longer, and one that has ended has ended. The times are in
/// whole microseconds, as those of the database are.
pub proof fn planner_rests_exactly_when_the_habit_does(
    horizon_start: Instant,
    horizon_end: Instant,
    outcomes: Seq<OutcomeEvidenceRow>,
    missed: Seq<MissedEvidenceRow>,
    anchors: Seq<AnchorRow>,
    pauses: Seq<PauseRow>,
    after: ContextView,
    habit_id: Uuid,
    at: Instant,
)
    requires
        in_micros(horizon_start),
        in_micros(horizon_end),
        forall|i: int| 0 <= i < pauses.len() ==> kept_in_micros(#[trigger] pauses[i]),
        recurrence_result(horizon_start, horizon_end, outcomes, missed, anchors, pauses) == Ok::<
            ContextView,
            PublishedHabitEvidenceError,
        >(after),
        horizon_start <= at < horizon_end,
    ensures
        handed_to_rest(after.pauses, habit_id, at) == rests(pauses, habit_id, at),
{
    let reported = outcome_fold(empty_context(), outcomes, outcomes.len())->Ok_0;
    let begun = MissedState { context: reported, targets: Set::empty() };
    let decided = missed_fold(begun, missed, missed.len(), horizon_start, horizon_end)->Ok_0;
    let anchored = anchor_fold(decided.context, anchors, anchors.len())->Ok_0;
    lemma_outcomes_keep(empty_context(), outcomes, outcomes.len());
    lemma_missed_keep(begun, missed, missed.len(), horizon_start, horizon_end);
    lemma_anchors_keep(decided.context, anchors, anchors.len());
    lemma_rest(
        anchored,
        pauses,
        pauses.len(),
        horizon_start,
        horizon_end,
        after,
        habit_id,
        at,
    );
    assert(pauses.take(pauses.len() as int) =~= pauses);
}

/// Whether a pause that the planner is handed is part of a stored one, and lies within the
/// horizon. What is lost below a microsecond only makes the times earlier.
pub open spec fn part_of(
    pause: RecurrencePause,
    row: PauseRow,
    horizon_start: Instant,
    horizon_end: Instant,
) -> bool {
    &&& pause.item_id == row.habit_id
    &&& row.started_at < pause.start + 1_000
    &&& horizon_start < pause.start + 1_000
    &&& row.ended_at is Some ==> pause.end <= row.ended_at->0
    &&& pause.end <= horizon_end
    &&& (pause.start <= row.started_at || pause.start <= horizon_start)
    &&& (row.ended_at is Some && row.ended_at->0 < pause.end + 1_000) || horizon_end < pause.end
        + 1_000
}

proof fn lemma_parts(
    context: ContextView,
    rows: Seq<PauseRow>,
    count: nat,
    horizon_start: Instant,
    horizon_end: Instant,
    after: ContextView,
    k: int,
)
    requires
        count <= rows.len(),
        context.pauses.len() == 0,
        pause_fold(context, rows, count, horizon_start, horizon_end) == Ok::<
            ContextView,
            PublishedHabitEvidenceError,
        >(after),
        0 <= k < after.pauses.len(),
    ensures
        exists|i: int|
            0 <= i < count && part_of(
                after.pauses[k],
                #[trigger] rows[i],
                horizon_start,
                horizon_end,
            ),
    decreases count,
{
    let n = (count - 1) as nat;
    let before = pause_fold(context, rows, n, horizon_start, horizon_end)->Ok_0;
    if k < before.pauses.len() {
        lemma_parts(context, rows, n, horizon_start, horizon_end, before, k);
        assert(after.pauses[k] == before.pauses[k]);
    } else {
        assert(part_of(after.pauses[k], rows[n as int], horizon_start, horizon_end));
    }
}

/// Whatever pause the planner is handed is part of a stored one of the same habit: it never
/// ends after the stored pause ended, and begins no more than a microsecond before it began.
pub proof fn handed_pauses_are_parts_of_stored_ones(
    horizon_start: Instant,
    horizon_end: Instant,
    outcomes: Seq<OutcomeEvidenceRow>,
    missed: Seq<MissedEvidenceRow>,
    anchors: Seq<AnchorRow>,
    pauses: Seq<PauseRow>,
    after: ContextView,
    k: int,
)
    requires
        recurrence_result(horizon_start, horizon_end, outcomes, missed, anchors, pauses) == Ok::<
            ContextView,
            PublishedHabitEvidenceError,
        >(after),
        0 <= k < after.pauses.len(),
    ensures
        exists|i: int|
            0 <= i < pauses.len() && part_of(
                after.pauses[k],
                #[trigger] pauses[i],
                horizon_start,
                horizon_end,
            ),
{
    let reported = outcome_fold(empty_context(), outcomes, outcomes.len())->Ok_0;
    let begun = MissedState { context: reported, targets: Set::empty() };
    let decided = missed_fold(begun, missed, missed.len(), horizon_start, horizon_end)->Ok_0;
    let anchored = anchor_fold(decided.context, anchors, anchors.len())->Ok_0;
    lemma_outcomes_keep(empty_context(), outcomes, outcomes.len());
    lemma_missed_keep(begun, missed, missed.len(), horizon_start, horizon_end);
    lemma_anchors_keep(decided.context, anchors, anchors.len());
    lemma_parts(anchored, pauses, pauses.len(), horizon_start, horizon_end, after, k);
}

proof fn lemma_anchored(
    context: ContextView,
    rows: Seq<AnchorRow>,
    count: nat,
    after: ContextView,
)
    requires
        count <= rows.len(),
        anchor_fold(context, rows, count) == Ok::<ContextView, PublishedHabitEvidenceError>(after),
    ensures
        forall|id: Uuid| #[trigger]
            after.anchors.contains_key(id) ==> context.anchors.contains_key(id) || exists|i: int|
                0 <= i < count && (#[trigger] rows[i]).habit_id == id,
        forall|i: int|
            0 <= i < count && (forall|j: int|
                i < j < count ==> (#[trigger] rows[j]).habit_id != rows[i].habit_id) ==> {
                &&& after.anchors.contains_key((#[trigger] rows[i]).habit_id)
                &&& after.anchors[rows[i].habit_id] <= rows[i].occurred_at
                    < after.anchors[rows[i].habit_id] + 1_000
                &&& in_micros(after.anchors[rows[i].habit_id])
            },
    decreases count,
{
    if count > 0 {
        let n = (count - 1) as nat;
        let before = anchor_fold(context, rows, n)->Ok_0;
        lemma_anchored(context, rows, n, before);
        let row = rows[n as int];
        assert forall|i: int|
            0 <= i < count && (forall|j: int|
                i < j < count ==> (#[trigger] rows[j]).habit_id != rows[i].habit_id) implies {
            &&& after.anchors.contains_key((#[trigger] rows[i]).habit_id)
            &&& after.anchors[rows[i].habit_id] <= rows[i].occurred_at
                < after.anchors[rows[i].habit_id] + 1_000
            &&& in_micros(after.anchors[rows[i].habit_id])
        } by {
            if i < n {
                assert(rows[n as int].habit_id != rows[i].habit_id);
                assert(forall|j: int| i < j < n ==> (#[trigger] rows[j]).habit_id
                    != rows[i].habit_id);
            }
        }
        assert forall|id: Uuid| #[trigger]
            after.anchors.contains_key(id) implies context.anchors.contains_key(id) || exists|
            i: int,
        |
            0 <= i < count && (#[trigger] rows[i]).habit_id == id by {
            if id != row.habit_id {
                assert(before.anchors.contains_key(id));
            } else {
                assert(rows[n as int].habit_id == id);
            }
        }
    }
}

/// The planner is handed when each habit was last completed, as it is stored, and for no other
/// habit.
pub proof fn last_completions_are_handed_over(
    horizon_start: Instant,
    horizon_end: Instant,
    outcomes: Seq<OutcomeEvidenceRow>,
    missed: Seq<MissedEvidenceRow>,
    anchors: Seq<AnchorRow>,
    pauses: Seq<PauseRow>,
    after: ContextView,
    habit_id: Uuid,
)
    requires
        recurrence_result(horizon_start, horizon_end, outcomes, missed, anchors, pauses) == Ok::<
            ContextView,
            PublishedHabitEvidenceError,
        >(after),
    ensures
        after.anchors.contains_key(habit_id) <==> exists|i: int|
            0 <= i < anchors.len() && (#[trigger] anchors[i]).habit_id == habit_id,
        forall|i: int|
            0 <= i < anchors.len() && (#[trigger] anchors[i]).habit_id == habit_id && (forall|
                j: int,
            |
                i < j < anchors.len() ==> (#[trigger] anchors[j]).habit_id != habit_id)
                ==> after.anchors[habit_id] <= anchors[i].occurred_at < after.anchors[habit_id]
                + 1_000 && in_micros(after.anchors[habit_id]),
{
    let reported = outcome_fold(empty_context(), outcomes, outcomes.len())->Ok_0;
    let begun = MissedState { context: reported, targets: Set::empty() };
    let decided = missed_fold(begun, missed, missed.len(), horizon_start, horizon_end)->Ok_0;
    let anchored = anchor_fold(decided.context, anchors, anchors.len())->Ok_0;
    lemma_outcomes_keep(empty_context(), outcomes, outcomes.len());
    lemma_missed_keep(begun, missed, missed.len(), horizon_start, horizon_end);
    lemma_pauses_keep(anchored, pauses, pauses.len(), horizon_start, horizon_end);
    lemma_anchored(decided.context, anchors, anchors.len(), anchored);
    if exists|i: int| 0 <= i < anchors.len() && (#[trigger] anchors[i]).habit_id == habit_id {
        let i = choose|i: int| 0 <= i < anchors.len() && (#[trigger] anchors[i]).habit_id == habit_id;
        let last = lemma_last_row(anchors, habit_id, anchors.len(), i);
        assert(after.anchors.contains_key(anchors[last].habit_id));
    }
}

proof fn lemma_last_row(rows: Seq<AnchorRow>, habit_id: Uuid, count: nat, i: int) -> (last: int)
    requires
        count <= rows.len(),
        0 <= i < count,
        rows[i].habit_id == habit_id,
    ensures
        0 <= last < count,
        rows[last].habit_id == habit_id,
        forall|j: int| last < j < count ==> (#[trigger] rows[j]).habit_id != habit_id,
    decreases count,
{
    if rows[count - 1].habit_id == habit_id {
        count - 1
    } else {
        let last = lemma_last_row(rows, habit_id, (count - 1) as nat, i);
        last
    }
}

/// Whether a report has this status and is about this occurrence.
pub open spec fn reported_as(
    rows: Seq<OutcomeEvidenceRow>,
    count: nat,
    status: Seq<char>,
    occurrence_id: Uuid,
) -> bool {
    exists|i: int|
        0 <= i < count && (#[trigger] rows[i]).status@ == status && rows[i].planner_occurrence_id
            == occurrence_id
}

/// Whether progress is what a report on an occurrence says: the same share of it, of as many
/// minutes as are expected, a part of a minute counted as a whole one.
pub open spec fn progress_as_reported(
    row: OutcomeEvidenceRow,
    progress: RecurrencePartialProgress,
) -> bool {
    &&& row.status@ == "partial"@
    &&& row.expected_duration_seconds is Some
    &&& progress.progress_basis_points == row.progress_basis_points
    &&& 0 < progress.progress_basis_points < 10_000
    &&& row.expected_duration_seconds->0 <= 60 * progress.expected_duration_minutes
        < row.expected_duration_seconds->0 + 60
    &&& progress.remaining_duration_minutes is None
}

proof fn lemma_reports(rows: Seq<OutcomeEvidenceRow>, count: nat, after: ContextView, id: Uuid)
    requires
        count <= rows.len(),
        outcome_fold(empty_context(), rows, count) == Ok::<
            ContextView,
            PublishedHabitEvidenceError,
        >(after),
    ensures
        after.completed.contains(id) == reported_as(rows, count, "completed"@, id),
        after.partial_progress.contains_key(id) ==> exists|i: int|
            0 <= i < count && (#[trigger] rows[i]).planner_occurrence_id == id
                && progress_as_reported(rows[i], after.partial_progress[id]),
        (exists|i: int|
            0 <= i < count && (#[trigger] rows[i]).planner_occurrence_id == id && rows[i].status@
                == "partial"@ && rows[i].expected_duration_seconds is Some)
            ==> after.partial_progress.contains_key(id),
        forall|i: int|
            #![trigger rows[i].content_valid]
            0 <= i < count ==> rows[i].content_valid && (rows[i].status@ == "partial"@
                || rows[i].status@ == "completed"@ || rows[i].status@ == "skipped"@),
    decreases count,
{
    if count > 0 {
        let n = (count - 1) as nat;
        let row = rows[n as int];
        let before = outcome_fold(empty_context(), rows, n)->Ok_0;
        lemma_reports(rows, n, before, id);
        lemma_words();
        if reported_as(rows, n, "completed"@, id) {
            let i = choose|i: int|
                0 <= i < n && (#[trigger] rows[i]).status@ == "completed"@
                    && rows[i].planner_occurrence_id == id;
            assert(rows[i].status@ == "completed"@);
        }
        if after.completed.contains(id) && !before.completed.contains(id) {
            assert(rows[n as int].status@ == "completed"@);
        }
        if before.partial_progress.contains_key(id) {
            let i = choose|i: int|
                0 <= i < n && (#[trigger] rows[i]).planner_occurrence_id == id
                    && progress_as_reported(rows[i], before.partial_progress[id]);
            assert(rows[i].planner_occurrence_id == id);
            assert(after.partial_progress[id] == before.partial_progress[id]);
        } else if after.partial_progress.contains_key(id) {
            assert(rows[n as int].planner_occurrence_id == id);
            assert(progress_as_reported(row, after.partial_progress[id]));
        }
    }
}

proof fn lemma_words()
    ensures
        "partial"@ != "completed"@,
        "partial"@ != "skipped"@,
        "completed"@ != "skipped"@,
{
    reveal_strlit("partial");
    reveal_strlit("completed");
    reveal_strlit("skipped");
    assert("partial"@[0] != "completed"@[0]);
    assert("partial"@[0] != "skipped"@[0]);
    assert("completed"@[0] != "skipped"@[0]);
}

/// The planner takes an occurrence for done exactly if a report says that it is completed.
pub proof fn completed_occurrences_are_those_reported(
    horizon_start: Instant,
    horizon_end: Instant,
    outcomes: Seq<OutcomeEvidenceRow>,
    missed: Seq<MissedEvidenceRow>,
    anchors: Seq<AnchorRow>,
    pauses: Seq<PauseRow>,
    after: ContextView,
    occurrence_id: Uuid,
)
    requires
        recurrence_result(horizon_start, horizon_end, outcomes, missed, anchors, pauses) == Ok::<
            ContextView,
            PublishedHabitEvidenceError,
        >(after),
    ensures
        after.completed.contains(occurrence_id) <==> exists|i: int|
            0 <= i < outcomes.len() && (#[trigger] outcomes[i]).status@ == "completed"@
                && outcomes[i].planner_occurrence_id == occurrence_id,
{
    let reported = outcome_fold(empty_context(), outcomes, outcomes.len())->Ok_0;
    let begun = MissedState { context: reported, targets: Set::empty() };
    let decided = missed_fold(begun, missed, missed.len(), horizon_start, horizon_end)->Ok_0;
    let anchored = anchor_fold(decided.context, anchors, anchors.len())->Ok_0;
    lemma_missed_keep(begun, missed, missed.len(), horizon_start, horizon_end);
    lemma_anchors_keep(decided.context, anchors, anchors.len());
    lemma_pauses_keep(anchored, pauses, pauses.len(), horizon_start, horizon_end);
    lemma_reports(outcomes, outcomes.len(), reported, occurrence_id);
}

/// Whether an occurrence of a series is left out.
pub open spec fn planned_out(
    exceptions: Seq<RecurrenceException>,
    item_id: Uuid,
    occurrence_id: Uuid,
) -> bool {
    exists|k: int|
        0 <= k < exceptions.len() && (#[trigger] exceptions[k]).item_id == item_id
            && exceptions[k].occurrence_id == occurrence_id && exceptions[k].action
            == RecurrenceExceptionAction::Skip
}

/// Whether an occurrence of a series takes place at another time.
pub open spec fn planned_anew(
    exceptions: Seq<RecurrenceException>,
    item_id: Uuid,
    occurrence_id: Uuid,
) -> bool {
    exists|k: int|
        0 <= k < exceptions.len() && (#[trigger] exceptions[k]).item_id == item_id
            && exceptions[k].occurrence_id == occurrence_id && exceptions[k].action is Move
}

/// Whether an occurrence of a series takes place within a window, up to what is lost below a
/// microsecond.
pub open spec fn planned_within(
    exceptions: Seq<RecurrenceException>,
    item_id: Uuid,
    occurrence_id: Uuid,
    start: Instant,
    end: Instant,
    evidence_id: Uuid,
) -> bool {
    exists|k: int| #![trigger exceptions[k]]
        {
            let action = exceptions[k].action;
            &&& 0 <= k < exceptions.len()
            &&& exceptions[k].item_id == item_id
            &&& exceptions[k].occurrence_id == occurrence_id
            &&& action is Move
            &&& action->start <= start < action->start + 1_000
            &&& action->end <= end < action->end + 1_000
            &&& action->source.evidence_id == evidence_id
        }
}

/// Whether two contexts treat an occurrence of a series alike.
pub open spec fn treated_alike(
    before: ContextView,
    after: ContextView,
    item_id: Uuid,
    occurrence_id: Uuid,
) -> bool {
    &&& forall|exception: RecurrenceException|
        exception.item_id == item_id && exception.occurrence_id == occurrence_id ==> (
        #[trigger] before.exceptions.contains(exception)) == after.exceptions.contains(exception)
    &&& before.partial_progress.contains_key(occurrence_id)
        == after.partial_progress.contains_key(occurrence_id)
    &&& before.partial_progress.contains_key(occurrence_id)
        ==> before.partial_progress[occurrence_id] == after.partial_progress[occurrence_id]
}

/// Whether a decision about a missed occurrence names an occurrence: the missed one, or one
/// that is left out for it.
pub open spec fn decision_names(row: MissedEvidenceRow, occurrence_id: Uuid) -> bool {
    ||| row.evidence.planner_occurrence_id == occurrence_id
    ||| match row.resolution.action {
        HabitMissedResolutionAction::ReduceFrequency { suppressed_planner_occurrence_ids } =>
        suppressed_planner_occurrence_ids@.contains(occurrence_id),
        _ => false,
    }
}

/// Whether nothing stands in the way of a decision about a missed occurrence: nobody reported
/// the occurrence done or left out, its habit does not rest, it is not left out for another,
/// and the rules are those under which it was planned.
pub open spec fn decision_stands(row: MissedEvidenceRow, targets: Set<(Uuid, Uuid)>) -> bool {
    &&& row.source_outcome_status is None || (row.source_outcome_status->0@ != "completed"@
        && row.source_outcome_status->0@ != "skipped"@)
    &&& !row.source_paused
    &&& !row.source_is_effectively_suppressed
    &&& row.evidence.policy_fingerprint@ == crate::hashing::prefixed_text(
        crate::outside::sha256_of(row.current_policy@),
    )
    &&& !targets.contains((row.evidence.habit_id, row.evidence.planner_occurrence_id))
}

proof fn lemma_kept(
    exceptions: Seq<RecurrenceException>,
    item_id: Uuid,
    occurrence_id: Uuid,
    exception: RecurrenceException,
)
    ensures
        without_exceptions(exceptions, item_id, occurrence_id).contains(exception) == (
        exceptions.contains(exception) && !(exception.item_id == item_id && exception.occurrence_id
            == occurrence_id)),
    decreases exceptions.len(),
{
    reveal(Seq::filter);
    let kept = without_exceptions(exceptions, item_id, occurrence_id);
    if exceptions.len() > 0 {
        let first = exceptions.drop_last();
        let last = exceptions.last();
        lemma_kept(first, item_id, occurrence_id, exception);
        let before = without_exceptions(first, item_id, occurrence_id);
        let keep = |candidate: RecurrenceException|
            !(candidate.item_id == item_id && candidate.occurrence_id == occurrence_id);
        assert(kept == if keep(last) {
            before.push(last)
        } else {
            before
        });
        lemma_pushed(first, last, exception);
        assert(exceptions =~= first.push(last));
        lemma_pushed(before, last, exception);
    }
}

proof fn lemma_pushed(
    exceptions: Seq<RecurrenceException>,
    last: RecurrenceException,
    exception: RecurrenceException,
)
    ensures
        exceptions.push(last).contains(exception) == (exceptions.contains(exception) || exception
            == last),
{
    let more = exceptions.push(last);
    assert(more[exceptions.len() as int] == last);
    if exceptions.contains(exception) {
        let k = choose|k: int| 0 <= k < exceptions.len() && exceptions[k] == exception;
        assert(more[k] == exception);
    }
    if more.contains(exception) {
        let k = choose|k: int| 0 <= k < more.len() && more[k] == exception;
        if k < exceptions.len() {
            assert(exceptions[k] == exception);
        }
    }
}

proof fn lemma_left_out_effect(context: ContextView, item_id: Uuid, occurrence_id: Uuid)
    ensures
        planned_out(
            left_out(context, item_id, occurrence_id).exceptions,
            item_id,
            occurrence_id,
        ),
        !left_out(context, item_id, occurrence_id).partial_progress.contains_key(occurrence_id),
        !planned_anew(context.exceptions, item_id, occurrence_id) ==> !planned_anew(
            left_out(context, item_id, occurrence_id).exceptions,
            item_id,
            occurrence_id,
        ),
        forall|item: Uuid, occurrence: Uuid|
            occurrence != occurrence_id ==> #[trigger] treated_alike(
                context,
                left_out(context, item_id, occurrence_id),
                item,
                occurrence,
            ),
{
    let after = left_out(context, item_id, occurrence_id);
    let skip = RecurrenceException {
        item_id,
        occurrence_id,
        action: RecurrenceExceptionAction::Skip,
    };
    if !crate::habits::recurrence::is_skipped(context.exceptions, item_id, occurrence_id) {
        assert(after.exceptions[context.exceptions.len() as int] == skip);
        assert forall|item: Uuid, occurrence: Uuid|
            occurrence != occurrence_id implies #[trigger] treated_alike(
            context,
            after,
            item,
            occurrence,
        ) by {
            assert forall|exception: RecurrenceException|
                exception.item_id == item && exception.occurrence_id == occurrence implies (
            #[trigger] context.exceptions.contains(exception)) == after.exceptions.contains(
                exception,
            ) by {
                lemma_pushed(context.exceptions, skip, exception);
            }
        }
        if planned_anew(after.exceptions, item_id, occurrence_id) {
            let k = choose|k: int|
                0 <= k < after.exceptions.len() && (#[trigger] after.exceptions[k]).item_id
                    == item_id && after.exceptions[k].occurrence_id == occurrence_id
                    && after.exceptions[k].action is Move;
            assert(k < context.exceptions.len());
            assert(context.exceptions[k] == after.exceptions[k]);
        }
    } else {
        let k = choose|k: int|
            0 <= k < context.exceptions.len() && crate::habits::recurrence::skips(
                #[trigger] context.exceptions[k],
                item_id,
                occurrence_id,
            );
        assert(after.exceptions[k].item_id == item_id);
    }
}

proof fn lemma_suppressed_effect(
    state: MissedState,
    habit_id: Uuid,
    ids: Seq<Uuid>,
    count: nat,
    item: Uuid,
    occurrence: Uuid,
)
    requires
        count <= ids.len(),
        forall|k: int| 0 <= k < count ==> ids[k] != occurrence,
    ensures
        treated_alike(
            state.context,
            suppressed_fold(state, habit_id, ids, count).context,
            item,
            occurrence,
        ),
    decreases count,
{
    if count > 0 {
        let n = (count - 1) as nat;
        lemma_suppressed_effect(state, habit_id, ids, n, item, occurrence);
        let before = suppressed_fold(state, habit_id, ids, n);
        lemma_left_out_effect(before.context, habit_id, ids[n as int]);
        assert(treated_alike(
            before.context,
            left_out(before.context, habit_id, ids[n as int]),
            item,
            occurrence,
        ));
    }
}

proof fn lemma_carried_effect(
    context: ContextView,
    row: MissedEvidenceRow,
    window_start: Instant,
    window_end: Instant,
    horizon_start: Instant,
    horizon_end: Instant,
    after: ContextView,
)
    requires
        carried(context, row, window_start, window_end, horizon_start, horizon_end) == Ok::<
            ContextView,
            PublishedHabitEvidenceError,
        >(after),
    ensures
        ({
            let item_id = row.evidence.habit_id;
            let occurrence_id = row.evidence.planner_occurrence_id;
            if horizon_start <= window_start && window_end <= horizon_end {
                &&& planned_within(
                    after.exceptions,
                    item_id,
                    occurrence_id,
                    window_start,
                    window_end,
                    row.evidence.id,
                )
                &&& !planned_out(after.exceptions, item_id, occurrence_id)
                &&& after.partial_progress == context.partial_progress
            } else {
                &&& planned_out(after.exceptions, item_id, occurrence_id)
                &&& !planned_anew(after.exceptions, item_id, occurrence_id)
                &&& !after.partial_progress.contains_key(occurrence_id)
            }
        }),
        forall|item: Uuid, occurrence: Uuid|
            occurrence != row.evidence.planner_occurrence_id ==> #[trigger] treated_alike(
                context,
                after,
                item,
                occurrence,
            ),
{
    let item_id = row.evidence.habit_id;
    let occurrence_id = row.evidence.planner_occurrence_id;
    let cleared = ContextView {
        exceptions: without_exceptions(context.exceptions, item_id, occurrence_id),
        ..context
    };
    assert forall|k: int| 0 <= k < cleared.exceptions.len() implies !((
    #[trigger] cleared.exceptions[k]).item_id == item_id && cleared.exceptions[k].occurrence_id
        == occurrence_id) by {
        lemma_kept(context.exceptions, item_id, occurrence_id, cleared.exceptions[k]);
        assert(cleared.exceptions.contains(cleared.exceptions[k]));
    }
    assert forall|item: Uuid, occurrence: Uuid|
        occurrence != occurrence_id implies #[trigger] treated_alike(
        context,
        cleared,
        item,
        occurrence,
    ) by {
        assert forall|exception: RecurrenceException|
            exception.item_id == item && exception.occurrence_id == occurrence implies (
        #[trigger] context.exceptions.contains(exception)) == cleared.exceptions.contains(
            exception,
        ) by {
            lemma_kept(context.exceptions, item_id, occurrence_id, exception);
        }
    }
    if horizon_start <= window_start && window_end <= horizon_end {
        let last = after.exceptions[cleared.exceptions.len() as int];
        assert(after.exceptions =~= cleared.exceptions.push(last));
        assert(last.action is Move);
        if planned_out(after.exceptions, item_id, occurrence_id) {
            let k = choose|k: int|
                0 <= k < after.exceptions.len() && (#[trigger] after.exceptions[k]).item_id
                    == item_id && after.exceptions[k].occurrence_id == occurrence_id
                    && after.exceptions[k].action == RecurrenceExceptionAction::Skip;
            assert(after.exceptions[k] == cleared.exceptions[k]);
        }
        assert forall|item: Uuid, occurrence: Uuid|
            occurrence != occurrence_id implies #[trigger] treated_alike(
            context,
            after,
            item,
            occurrence,
        ) by {
            assert(treated_alike(context, cleared, item, occurrence));
            assert forall|exception: RecurrenceException|
                exception.item_id == item && exception.occurrence_id == occurrence implies (
            #[trigger] context.exceptions.contains(exception)) == after.exceptions.contains(
                exception,
            ) by {
                lemma_pushed(cleared.exceptions, last, exception);
            }
        }
    } else {
        lemma_left_out_effect(cleared, item_id, occurrence_id);
        assert(!planned_anew(cleared.exceptions, item_id, occurrence_id));
        assert forall|item: Uuid, occurrence: Uuid|
            occurrence != occurrence_id implies #[trigger] treated_alike(
            context,
            after,
            item,
            occurrence,
        ) by {
            assert(treated_alike(context, cleared, item, occurrence));
            assert(treated_alike(cleared, after, item, occurrence));
        }
    }
}

/// A decision about a missed occurrence that stands takes effect: a skipped occurrence is left
/// out, with nothing of it done; one that is carried takes place in its new window if the
/// window is within the horizon, and is left out otherwise; and where the frequency is
/// reduced, the occurrences that go for it are left out, and each of them is marked.
pub proof fn standing_decisions_take_effect(
    state: MissedState,
    row: MissedEvidenceRow,
    horizon_start: Instant,
    horizon_end: Instant,
    after: MissedState,
)
    requires
        decision_stands(row, state.targets),
        missed_step(state, row, horizon_start, horizon_end) == Ok::<
            MissedState,
            PublishedHabitEvidenceError,
        >(after),
    ensures
        ({
            let item_id = row.evidence.habit_id;
            let occurrence_id = row.evidence.planner_occurrence_id;
            let exceptions = after.context.exceptions;
            match row.resolution.action {
                HabitMissedResolutionAction::Skip => {
                    &&& planned_out(exceptions, item_id, occurrence_id)
                    &&& !after.context.partial_progress.contains_key(occurrence_id)
                },
                HabitMissedResolutionAction::Carry { window_start, window_end } => {
                    if horizon_start <= window_start && window_end <= horizon_end {
                        &&& planned_within(
                            exceptions,
                            item_id,
                            occurrence_id,
                            window_start,
                            window_end,
                            row.evidence.id,
                        )
                        &&& !planned_out(exceptions, item_id, occurrence_id)
                        &&& after.context.partial_progress == state.context.partial_progress
                    } else {
                        &&& planned_out(exceptions, item_id, occurrence_id)
                        &&& !planned_anew(exceptions, item_id, occurrence_id)
                        &&& !after.context.partial_progress.contains_key(occurrence_id)
                    }
                },
                HabitMissedResolutionAction::ReduceFrequency {
                    suppressed_planner_occurrence_ids,
                } => !row.target_ineligible && row.reduction_is_effective ==> forall|k: int|
                    0 <= k < suppressed_planner_occurrence_ids@.len() ==> {
                        let id = #[trigger] suppressed_planner_occurrence_ids@[k];
                        &&& planned_out(exceptions, item_id, id)
                        &&& !after.context.partial_progress.contains_key(id)
                        &&& after.targets.contains((item_id, id))
                    },
                _ => after == state,
            }
        }),
{
    match row.resolution.action {
        HabitMissedResolutionAction::Skip => {
            lemma_left_out_effect(
                state.context,
                row.evidence.habit_id,
                row.evidence.planner_occurrence_id,
            );
        },
        HabitMissedResolutionAction::Carry { window_start, window_end } => {
            lemma_carried_effect(
                state.context,
                row,
                window_start,
                window_end,
                horizon_start,
                horizon_end,
                after.context,
            );
        },
        HabitMissedResolutionAction::ReduceFrequency { suppressed_planner_occurrence_ids } => {
            if !row.target_ineligible && row.reduction_is_effective {
                let ids = suppressed_planner_occurrence_ids@;
                assert forall|k: int| 0 <= k < ids.len() implies {
                    let id = #[trigger] ids[k];
                    &&& planned_out(after.context.exceptions, row.evidence.habit_id, id)
                    &&& !after.context.partial_progress.contains_key(id)
                    &&& after.targets.contains((row.evidence.habit_id, id))
                } by {
                    crate::habits::recurrence::suppressed_occurrences_are_left_out(
                        state,
                        row.evidence.habit_id,
                        ids,
                        ids.len(),
                        k,
                    );
                    let n = choose|n: int|
                        0 <= n < after.context.exceptions.len()
                            && crate::habits::recurrence::skips(
                            #[trigger] after.context.exceptions[n],
                            row.evidence.habit_id,
                            ids[k],
                        );
                    assert(after.context.exceptions[n].item_id == row.evidence.habit_id);
                }
            }
        },
        _ => {},
    }
}

/// A decision about a missed occurrence that does not stand changes nothing, and neither does
/// one to reduce the frequency whose reduction is without effect.
pub proof fn other_decisions_change_nothing(
    state: MissedState,
    row: MissedEvidenceRow,
    horizon_start: Instant,
    horizon_end: Instant,
    after: MissedState,
)
    requires
        missed_step(state, row, horizon_start, horizon_end) == Ok::<
            MissedState,
            PublishedHabitEvidenceError,
        >(after),
        !decision_stands(row, state.targets) || (row.resolution.action is ReduceFrequency && (
        row.target_ineligible || !row.reduction_is_effective)),
    ensures
        after == state,
{
}

/// A decision that is stored with another occurrence than its own, or breaks the rules for
/// decisions, is refused, and no other is, unless its window cannot be handed over.
pub proof fn mismatched_decisions_are_refused(
    state: MissedState,
    row: MissedEvidenceRow,
    horizon_start: Instant,
    horizon_end: Instant,
)
    ensures
        !row.content_valid || row.resolution.occurrence_evidence_id != row.evidence.id
            || row.resolution.habit_id != row.evidence.habit_id
            || row.resolution.source_planner_occurrence_id != row.evidence.planner_occurrence_id
            ==> missed_step(state, row, horizon_start, horizon_end) == Err::<
            MissedState,
            PublishedHabitEvidenceError,
        >(PublishedHabitEvidenceError::Invalid),
        row.content_valid && row.resolution.occurrence_evidence_id == row.evidence.id
            && row.resolution.habit_id == row.evidence.habit_id
            && row.resolution.source_planner_occurrence_id == row.evidence.planner_occurrence_id
            && !(row.resolution.action is Carry) ==> missed_step(
            state,
            row,
            horizon_start,
            horizon_end,
        ) is Ok,
{
}

proof fn lemma_bystander(
    state: MissedState,
    row: MissedEvidenceRow,
    horizon_start: Instant,
    horizon_end: Instant,
    after: MissedState,
    item: Uuid,
    occurrence: Uuid,
)
    requires
        missed_step(state, row, horizon_start, horizon_end) == Ok::<
            MissedState,
            PublishedHabitEvidenceError,
        >(after),
        !decision_names(row, occurrence),
    ensures
        treated_alike(state.context, after.context, item, occurrence),
{
    if crate::habits::recurrence::decision_applies(row, state.targets) {
        match row.resolution.action {
            HabitMissedResolutionAction::Skip => {
                lemma_left_out_effect(
                    state.context,
                    row.evidence.habit_id,
                    row.evidence.planner_occurrence_id,
                );
            },
            HabitMissedResolutionAction::Carry { window_start, window_end } => {
                lemma_carried_effect(
                    state.context,
                    row,
                    window_start,
                    window_end,
                    horizon_start,
                    horizon_end,
                    after.context,
                );
            },
            HabitMissedResolutionAction::ReduceFrequency { suppressed_planner_occurrence_ids } => {
                let ids = suppressed_planner_occurrence_ids@;
                assert forall|k: int| 0 <= k < ids.len() implies ids[k] != occurrence by {
                    assert(ids.contains(ids[k]));
                }
                lemma_suppressed_effect(
                    state,
                    row.evidence.habit_id,
                    ids,
                    ids.len(),
                    item,
                    occurrence,
                );
            },
            _ => {},
        }
    }
}

proof fn lemma_bystanders(
    state: MissedState,
    rows: Seq<MissedEvidenceRow>,
    count: nat,
    horizon_start: Instant,
    horizon_end: Instant,
    after: MissedState,
    item: Uuid,
    occurrence: Uuid,
)
    requires
        count <= rows.len(),
        missed_fold(state, rows, count, horizon_start, horizon_end) == Ok::<
            MissedState,
            PublishedHabitEvidenceError,
        >(after),
        forall|k: int| 0 <= k < count ==> !decision_names(#[trigger] rows[k], occurrence),
    ensures
        treated_alike(state.context, after.context, item, occurrence),
    decreases count,
{
    if count > 0 {
        let n = (count - 1) as nat;
        let before = missed_fold(state, rows, n, horizon_start, horizon_end)->Ok_0;
        lemma_bystanders(state, rows, n, horizon_start, horizon_end, before, item, occurrence);
        lemma_bystander(
            before,
            rows[n as int],
            horizon_start,
            horizon_end,
            after,
            item,
            occurrence,
        );
    }
}

proof fn lemma_reported_skips(
    rows: Seq<OutcomeEvidenceRow>,
    count: nat,
    after: ContextView,
    exception: RecurrenceException,
)
    requires
        count <= rows.len(),
        outcome_fold(empty_context(), rows, count) == Ok::<
            ContextView,
            PublishedHabitEvidenceError,
        >(after),
    ensures
        after.exceptions.contains(exception) == (exception.action
            == RecurrenceExceptionAction::Skip && exists|i: int|
            0 <= i < count && (#[trigger] rows[i]).status@ == "skipped"@ && rows[i].habit_id
                == exception.item_id && rows[i].planner_occurrence_id == exception.occurrence_id),
    decreases count,
{
    if count > 0 {
        let n = (count - 1) as nat;
        let row = rows[n as int];
        let before = outcome_fold(empty_context(), rows, n)->Ok_0;
        lemma_reported_skips(rows, n, before, exception);
        lemma_words();
        if before.exceptions.contains(exception) {
            let i = choose|i: int|
                0 <= i < n && (#[trigger] rows[i]).status@ == "skipped"@ && rows[i].habit_id
                    == exception.item_id && rows[i].planner_occurrence_id
                    == exception.occurrence_id;
            assert(rows[i].status@ == "skipped"@);
        }
        if row.status@ == "skipped"@ {
            let last = after.exceptions[before.exceptions.len() as int];
            assert(after.exceptions =~= before.exceptions.push(last));
            lemma_pushed(before.exceptions, last, exception);
            assert(rows[n as int].status@ == "skipped"@);
        }
    }
}

/// An occurrence that no decision about a missed occurrence names is treated as was reported:
/// it is left out exactly if it was reported as skipped, it is never moved, and what is done
/// of it is what was reported.
pub proof fn reports_are_handed_over(
    horizon_start: Instant,
    horizon_end: Instant,
    outcomes: Seq<OutcomeEvidenceRow>,
    missed: Seq<MissedEvidenceRow>,
    anchors: Seq<AnchorRow>,
    pauses: Seq<PauseRow>,
    after: ContextView,
    item_id: Uuid,
    occurrence_id: Uuid,
)
    requires
        recurrence_result(horizon_start, horizon_end, outcomes, missed, anchors, pauses) == Ok::<
            ContextView,
            PublishedHabitEvidenceError,
        >(after),
        forall|k: int|
            0 <= k < missed.len() ==> !decision_names(#[trigger] missed[k], occurrence_id),
    ensures
        planned_out(after.exceptions, item_id, occurrence_id) <==> exists|i: int|
            0 <= i < outcomes.len() && (#[trigger] outcomes[i]).status@ == "skipped"@
                && outcomes[i].habit_id == item_id && outcomes[i].planner_occurrence_id
                == occurrence_id,
        !planned_anew(after.exceptions, item_id, occurrence_id),
        after.partial_progress.contains_key(occurrence_id) <==> exists|i: int|
            0 <= i < outcomes.len() && (#[trigger] outcomes[i]).planner_occurrence_id
                == occurrence_id && outcomes[i].status@ == "partial"@
                && outcomes[i].expected_duration_seconds is Some,
        after.partial_progress.contains_key(occurrence_id) ==> exists|i: int|
            0 <= i < outcomes.len() && (#[trigger] outcomes[i]).planner_occurrence_id
                == occurrence_id && progress_as_reported(
                outcomes[i],
                after.partial_progress[occurrence_id],
            ),
{
    let reported = outcome_fold(empty_context(), outcomes, outcomes.len())->Ok_0;
    let begun = MissedState { context: reported, targets: Set::empty() };
    let decided = missed_fold(begun, missed, missed.len(), horizon_start, horizon_end)->Ok_0;
    let anchored = anchor_fold(decided.context, anchors, anchors.len())->Ok_0;
    lemma_anchors_keep(decided.context, anchors, anchors.len());
    lemma_pauses_keep(anchored, pauses, pauses.len(), horizon_start, horizon_end);
    lemma_reports(outcomes, outcomes.len(), reported, occurrence_id);
    lemma_bystanders(
        begun,
        missed,
        missed.len(),
        horizon_start,
        horizon_end,
        decided,
        item_id,
        occurrence_id,
    );
    assert(after.exceptions == decided.context.exceptions);
    let skip = RecurrenceException {
        item_id,
        occurrence_id,
        action: RecurrenceExceptionAction::Skip,
    };
    lemma_reported_skips(outcomes, outcomes.len(), reported, skip);
    assert(reported.exceptions.contains(skip) == after.exceptions.contains(skip));
    if planned_out(after.exceptions, item_id, occurrence_id) {
        let k = choose|k: int|
            0 <= k < after.exceptions.len() && (#[trigger] after.exceptions[k]).item_id == item_id
                && after.exceptions[k].occurrence_id == occurrence_id && after.exceptions[k].action
                == RecurrenceExceptionAction::Skip;
        assert(after.exceptions[k] == skip);
        assert(after.exceptions.contains(skip));
    }
    if after.exceptions.contains(skip) {
        let k = choose|k: int| 0 <= k < after.exceptions.len() && after.exceptions[k] == skip;
        assert(after.exceptions[k].item_id == item_id);
    }
    if planned_anew(after.exceptions, item_id, occurrence_id) {
        let k = choose|k: int|
            0 <= k < after.exceptions.len() && (#[trigger] after.exceptions[k]).item_id == item_id
                && after.exceptions[k].occurrence_id == occurrence_id && after.exceptions[k].action
                is Move;
        let anew = after.exceptions[k];
        assert(after.exceptions.contains(anew));
        assert(reported.exceptions.contains(anew) == after.exceptions.contains(anew));
        lemma_reported_skips(outcomes, outcomes.len(), reported, anew);
    }
}

/// A report is refused exactly if it breaks the rules for reports: its evidence is not valid,
/// its status is not known, what is said to be done in part is nothing or all, its expected
/// duration has more minutes than can be told, or another report told the same occurrence to
/// be done in part.
pub proof fn faulty_reports_are_refused(context: ContextView, row: OutcomeEvidenceRow)
    ensures
        (crate::habits::recurrence::outcome_step(context, row) is Err) <==> {
            ||| !row.content_valid
            ||| row.status@ != "partial"@ && row.status@ != "completed"@ && row.status@
                != "skipped"@
            ||| row.status@ == "partial"@ && (row.progress_basis_points <= 0
                || row.progress_basis_points >= 10_000)
            ||| row.status@ == "partial"@ && row.expected_duration_seconds is Some && (
            row.expected_duration_seconds->0 > 60 * u32::MAX
                || context.partial_progress.contains_key(row.planner_occurrence_id))
        },
{
    lemma_words();
}

/// An occurrence that was moved is handed over as it was published: with its evidence, its own
/// time in the time zone of its habit, its date and its place in the series, and the present
/// revision of its item. It is refused if one of them cannot be told.
pub proof fn moved_occurrences_are_handed_over_as_published(
    evidence: crate::habits::model::HabitOccurrenceEvidence,
    identity_readable: bool,
    ordinal: Option<u32>,
    revision: i64,
)
    ensures
        match crate::habits::recurrence::move_source(
            evidence,
            identity_readable,
            ordinal,
            revision,
        ) {
            Ok(source) => {
                &&& identity_readable
                &&& source.evidence_id == evidence.id
                &&& source.item_revision == revision
                &&& Some(source.ordinal) == ordinal
                &&& source.local_date == evidence.local_date
                &&& source.nominal_start.instant <= evidence.nominal_start
                    < source.nominal_start.instant + 1_000
                &&& source.nominal_end.instant <= evidence.nominal_end
                    < source.nominal_end.instant + 1_000
                &&& source.nominal_start.offset_seconds == crate::outside::zone_offset(
                    crate::habits::zones::whole_seconds(evidence.nominal_start) as i64,
                    crate::habits::zones::subsecond_nanos(evidence.nominal_start) as u32,
                    evidence.timezone_name@,
                )
                &&& source.nominal_end.offset_seconds == crate::outside::zone_offset(
                    crate::habits::zones::whole_seconds(evidence.nominal_end) as i64,
                    crate::habits::zones::subsecond_nanos(evidence.nominal_end) as u32,
                    evidence.timezone_name@,
                )
            },
            Err(error) => error == PublishedHabitEvidenceError::Invalid && {
                ||| !identity_readable
                ||| ordinal is None
                ||| revision < 0
                ||| !evidence.local_date.on_calendar()
                ||| evidence.local_date.year < -9_999
                ||| evidence.local_date.year > 9_999
                ||| !crate::outside::zone_known(evidence.timezone_name@)
                ||| crate::habits::zones::planner_result(evidence.nominal_start) is Err
                ||| crate::habits::zones::planner_result(evidence.nominal_end) is Err
                ||| !crate::habits::zones::planner_offset(
                    crate::outside::zone_offset(
                        crate::habits::zones::whole_seconds(evidence.nominal_start) as i64,
                        crate::habits::zones::subsecond_nanos(evidence.nominal_start) as u32,
                        evidence.timezone_name@,
                    ) as int,
                )
                ||| !crate::habits::zones::planner_offset(
                    crate::outside::zone_offset(
                        crate::habits::zones::whole_seconds(evidence.nominal_end) as i64,
                        crate::habits::zones::subsecond_nanos(evidence.nominal_end) as u32,
                        evidence.timezone_name@,
                    ) as int,
                )
            },
        },
{
}

/// A pause or a completion at an instant that the planner cannot represent is refused, and no
/// other one is.
pub proof fn only_unknown_instants_are_refused(
    context: ContextView,
    pause: PauseRow,
    anchor: AnchorRow,
    horizon_start: Instant,
    horizon_end: Instant,
)
    requires
        crate::habits::zones::planner_result(horizon_start) is Ok,
        crate::habits::zones::planner_result(horizon_end) is Ok,
    ensures
        crate::habits::recurrence::pause_step(context, pause, horizon_start, horizon_end) is Ok,
        crate::habits::recurrence::anchor_step(context, anchor) is Ok <==> anchor.content_valid
            && -377_705_116_800_000_000_000 <= anchor.occurred_at
            <= 253_402_300_799_999_999_999,
{
}

} // verus!
