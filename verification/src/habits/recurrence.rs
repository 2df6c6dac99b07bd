//! What the planner has to respect of the history of habits: which occurrences are done,
//! left out or moved, when habits rest, and when they were last completed.
use std::collections::{BTreeMap, BTreeSet};

use vstd::prelude::*;

use crate::habits::model::{
    HabitMissedResolution, HabitMissedResolutionAction, HabitOccurrenceEvidence,
};
use crate::habits::zones::{
    chrono_to_offset, chrono_to_offset_in_timezone, PublishedHabitEvidenceError, ZonedInstant,
};
use crate::hashing::{encoded_hash, hash_bytes};
use crate::text::same_text;
use crate::time::{CalendarDate, Instant, Uuid};

verus! {

/// How many moved occurrences a planner may ask about.
pub const MAX_AUTHORITATIVE_MOVED_OCCURRENCES: usize = 10_000;

/// How much of an occurrence is done.
#[derive(Clone, Copy, Debug, PartialEq, Eq, Structural)]
pub struct RecurrencePartialProgress {
    pub progress_basis_points: u16,
    pub expected_duration_minutes: u32,
    pub remaining_duration_minutes: Option<u32>,
}

/// The occurrence that was moved, as it was published. Its identity within the series
/// is the one that its evidence holds.
#[derive(Clone, Copy, Debug, PartialEq, Eq, Structural)]
pub struct RecurrenceMoveSource {
    pub evidence_id: Uuid,
    pub item_revision: u64,
    pub nominal_start: ZonedInstant,
    pub nominal_end: ZonedInstant,
    pub local_date: CalendarDate,
    pub ordinal: u32,
}

/// What happens to an occurrence instead of what its series says.
#[derive(Clone, Copy, Debug, PartialEq, Eq, Structural)]
pub enum RecurrenceExceptionAction {
    Skip,
    Move { start: Instant, end: Instant, source: RecurrenceMoveSource },
}

/// An exception for one occurrence of a series.
#[derive(Clone, Copy, Debug, PartialEq, Eq, Structural)]
pub struct RecurrenceException {
    pub item_id: Uuid,
    pub occurrence_id: Uuid,
    pub action: RecurrenceExceptionAction,
}

/// A time during which a series rests.
#[derive(Clone, Copy, Debug, PartialEq, Eq, Structural)]
pub struct RecurrencePause {
    pub item_id: Uuid,
    pub start: Instant,
    pub end: Instant,
}

/// What the planner has to respect.
#[derive(Debug)]
pub struct RecurrenceContext {
    pub partial_progress: BTreeMap<Uuid, RecurrencePartialProgress>,
    pub completed_occurrence_ids: BTreeSet<Uuid>,
    pub exceptions: Vec<RecurrenceException>,
    pub completion_anchors: BTreeMap<Uuid, Instant>,
    pub pauses: Vec<RecurrencePause>,
}

/// What the planner has to respect, as a mathematical value.
pub ghost struct ContextView {
    pub partial_progress: Map<Uuid, RecurrencePartialProgress>,
    pub completed: Set<Uuid>,
    pub exceptions: Seq<RecurrenceException>,
    pub anchors: Map<Uuid, Instant>,
    pub pauses: Seq<RecurrencePause>,
}

impl View for RecurrenceContext {
    type V = ContextView;

    open spec fn view(&self) -> ContextView {
        ContextView {
            partial_progress: self.partial_progress@,
            completed: self.completed_occurrence_ids@,
            exceptions: self.exceptions@,
            anchors: self.completion_anchors@,
            pauses: self.pauses@,
        }
    }
}

/// What is known of an occurrence that somebody has reported on.
#[derive(Debug)]
pub struct OutcomeEvidenceRow {
    pub habit_id: Uuid,
    pub planner_occurrence_id: Uuid,
    pub expected_duration_seconds: Option<u64>,
    pub status: String,
    pub progress_basis_points: i32,
    /// Whether the evidence satisfies the rules for evidence.
    pub content_valid: bool,
}

/// What is known of an occurrence that was missed.
#[derive(Debug)]
pub struct MissedEvidenceRow {
    pub evidence: HabitOccurrenceEvidence,
    pub resolution: HabitMissedResolution,
    /// Whether the evidence and the decision satisfy the rules for them.
    pub content_valid: bool,
    pub source_outcome_status: Option<String>,
    pub source_paused: bool,
    pub source_is_effectively_suppressed: bool,
    /// The present policy of the habit, as a document.
    pub current_policy: Vec<u8>,
    pub current_item_revision: i64,
    pub target_ineligible: bool,
    pub reduction_is_effective: bool,
    /// Whether the identity of the occurrence can be read.
    pub identity_readable: bool,
    /// The place of the occurrence in its series, if its identity gives one.
    pub ordinal: Option<u32>,
}

/// When a habit was last completed.
#[derive(Debug)]
pub struct AnchorRow {
    pub habit_id: Uuid,
    pub occurred_at: Instant,
    /// Whether the evidence satisfies the rules for evidence.
    pub content_valid: bool,
}

/// A pause of a habit.
#[derive(Clone, Copy, Debug)]
pub struct PauseRow {
    pub habit_id: Uuid,
    pub started_at: Instant,
    pub ended_at: Option<Instant>,
}

/// Whether an exception leaves out an occurrence of a series.
pub open spec fn skips(exception: RecurrenceException, item_id: Uuid, occurrence_id: Uuid) -> bool {
    exception.item_id == item_id && exception.occurrence_id == occurrence_id && exception.action
        == RecurrenceExceptionAction::Skip
}

/// Whether some exception leaves out an occurrence.
pub open spec fn is_skipped(
    exceptions: Seq<RecurrenceException>,
    item_id: Uuid,
    occurrence_id: Uuid,
) -> bool {
    exists|k: int|
        0 <= k < exceptions.len() && skips(#[trigger] exceptions[k], item_id, occurrence_id)
}

/// The exceptions with one that leaves out the occurrence, which is added only where
/// none is there.
pub open spec fn with_skip(
    exceptions: Seq<RecurrenceException>,
    item_id: Uuid,
    occurrence_id: Uuid,
) -> Seq<RecurrenceException> {
    if is_skipped(exceptions, item_id, occurrence_id) {
        exceptions
    } else {
        exceptions.push(
            RecurrenceException {
                item_id,
                occurrence_id,
                action: RecurrenceExceptionAction::Skip,
            },
        )
    }
}

/// The context once an occurrence is left out: nothing of it is done in part.
pub open spec fn left_out(context: ContextView, item_id: Uuid, occurrence_id: Uuid) -> ContextView {
    ContextView {
        partial_progress: context.partial_progress.remove(occurrence_id),
        exceptions: with_skip(context.exceptions, item_id, occurrence_id),
        ..context
    }
}

/// Minutes that are expected for an occurrence, rounded up.
pub open spec fn expected_minutes(seconds: u64) -> Option<u32> {
    if seconds + 59 <= u64::MAX && (seconds + 59) / 60 <= u32::MAX {
        Some(((seconds + 59) / 60) as u32)
    } else {
        None
    }
}

/// The context with a report on an occurrence.
pub open spec fn outcome_step(context: ContextView, row: OutcomeEvidenceRow) -> Result<
    ContextView,
    PublishedHabitEvidenceError,
> {
    if !row.content_valid {
        Err(PublishedHabitEvidenceError::Invalid)
    } else if row.status@ == "partial"@ {
        if !(1 <= row.progress_basis_points < 10_000) {
            Err(PublishedHabitEvidenceError::Invalid)
        } else {
            match row.expected_duration_seconds {
                None => Ok(context),
                Some(seconds) => match expected_minutes(seconds) {
                    None => Err(PublishedHabitEvidenceError::Invalid),
                    Some(minutes) => if context.partial_progress.contains_key(
                        row.planner_occurrence_id,
                    ) {
                        Err(PublishedHabitEvidenceError::Conflict)
                    } else {
                        Ok(
                            ContextView {
                                partial_progress: context.partial_progress.insert(
                                    row.planner_occurrence_id,
                                    RecurrencePartialProgress {
                                        progress_basis_points: row.progress_basis_points as u16,
                                        expected_duration_minutes: minutes,
                                        remaining_duration_minutes: None,
                                    },
                                ),
                                ..context
                            },
                        )
                    },
                },
            }
        }
    } else if row.status@ == "completed"@ {
        Ok(
            ContextView {
                completed: context.completed.insert(row.planner_occurrence_id),
                ..context
            },
        )
    } else if row.status@ == "skipped"@ {
        Ok(
            ContextView {
                exceptions: context.exceptions.push(
                    RecurrenceException {
                        item_id: row.habit_id,
                        occurrence_id: row.planner_occurrence_id,
                        action: RecurrenceExceptionAction::Skip,
                    },
                ),
                ..context
            },
        )
    } else {
        Err(PublishedHabitEvidenceError::Invalid)
    }
}

/// The context with the first `count` reports.
pub open spec fn outcome_fold(
    context: ContextView,
    rows: Seq<OutcomeEvidenceRow>,
    count: nat,
) -> Result<ContextView, PublishedHabitEvidenceError>
    decreases count,
{
    if count == 0 {
        Ok(context)
    } else {
        match outcome_fold(context, rows, (count - 1) as nat) {
            Err(error) => Err(error),
            Ok(before) => outcome_step(before, rows[count - 1]),
        }
    }
}

/// Whether the decision about a missed occurrence applies at present: nobody reported
/// it done or left out, the habit does not rest, its policy is the one under which the
/// occurrence was planned, and the occurrence is not itself left out for another.
pub open spec fn decision_applies(row: MissedEvidenceRow, targets: Set<(Uuid, Uuid)>) -> bool {
    &&& match row.source_outcome_status {
        Some(status) => status@ != "completed"@ && status@ != "skipped"@,
        None => true,
    }
    &&& !row.source_paused
    &&& !row.source_is_effectively_suppressed
    &&& row.evidence.policy_fingerprint@ == crate::hashing::prefixed_text(
        crate::outside::sha256_of(row.current_policy@),
    )
    &&& !targets.contains((row.evidence.habit_id, row.evidence.planner_occurrence_id))
}

/// The occurrence that was moved, as it was published.
pub open spec fn move_source(
    evidence: HabitOccurrenceEvidence,
    identity_readable: bool,
    ordinal: Option<u32>,
    current_item_revision: i64,
) -> Result<RecurrenceMoveSource, PublishedHabitEvidenceError> {
    let start = crate::habits::zones::zoned_result(evidence.nominal_start, evidence.timezone_name@);
    let end = crate::habits::zones::zoned_result(evidence.nominal_end, evidence.timezone_name@);
    if identity_readable && ordinal is Some && evidence.local_date.on_calendar() && -9_999
        <= evidence.local_date.year <= 9_999 && current_item_revision >= 0 && start is Ok && end
        is Ok {
        Ok(
            RecurrenceMoveSource {
                evidence_id: evidence.id,
                item_revision: current_item_revision as u64,
                nominal_start: start->Ok_0,
                nominal_end: end->Ok_0,
                local_date: evidence.local_date,
                ordinal: ordinal->0,
            },
        )
    } else {
        Err(PublishedHabitEvidenceError::Invalid)
    }
}

/// The occurrence that was moved, as it was published.
pub fn recurrence_move_source(
    evidence: &HabitOccurrenceEvidence,
    identity_readable: bool,
    ordinal: Option<u32>,
    current_item_revision: i64,
) -> (result: Result<RecurrenceMoveSource, PublishedHabitEvidenceError>)
    ensures
        result == move_source(*evidence, identity_readable, ordinal, current_item_revision),
{
    if !identity_readable {
        return Err(PublishedHabitEvidenceError::Invalid);
    }
    let place: u32 = match ordinal {
        Some(place) => place,
        None => {
            return Err(PublishedHabitEvidenceError::Invalid);
        },
    };
    let date: CalendarDate = evidence.local_date;
    if CalendarDate::new(date.year, date.month, date.day).is_none() || date.year < -9_999
        || date.year > 9_999 {
        return Err(PublishedHabitEvidenceError::Invalid);
    }
    if current_item_revision < 0 {
        return Err(PublishedHabitEvidenceError::Invalid);
    }
    let nominal_start: ZonedInstant = chrono_to_offset_in_timezone(
        evidence.nominal_start,
        evidence.timezone_name.as_str(),
    )?;
    let nominal_end: ZonedInstant = chrono_to_offset_in_timezone(
        evidence.nominal_end,
        evidence.timezone_name.as_str(),
    )?;
    Ok(
        RecurrenceMoveSource {
            evidence_id: evidence.id,
            item_revision: current_item_revision as u64,
            nominal_start,
            nominal_end,
            local_date: date,
            ordinal: place,
        },
    )
}

/// What is known after some missed occurrences were looked at: the context, and the
/// occurrences that are left out for others, each with its series.
pub ghost struct MissedState {
    pub context: ContextView,
    pub targets: Set<(Uuid, Uuid)>,
}

/// The exceptions without those for an occurrence of a series.
pub open spec fn without_exceptions(
    exceptions: Seq<RecurrenceException>,
    item_id: Uuid,
    occurrence_id: Uuid,
) -> Seq<RecurrenceException> {
    exceptions.filter(
        |exception: RecurrenceException|
            !(exception.item_id == item_id && exception.occurrence_id == occurrence_id),
    )
}

/// The state once the first `count` of some occurrences are left out for another.
pub open spec fn suppressed_fold(
    state: MissedState,
    habit_id: Uuid,
    ids: Seq<Uuid>,
    count: nat,
) -> MissedState
    decreases count,
{
    if count == 0 {
        state
    } else {
        let before = suppressed_fold(state, habit_id, ids, (count - 1) as nat);
        MissedState {
            context: left_out(before.context, habit_id, ids[count - 1]),
            targets: before.targets.insert((habit_id, ids[count - 1])),
        }
    }
}

/// The context once an occurrence was carried to another window: it moves if the window
/// is within the horizon, and is left out otherwise.
pub open spec fn carried(
    context: ContextView,
    row: MissedEvidenceRow,
    window_start: Instant,
    window_end: Instant,
    horizon_start: Instant,
    horizon_end: Instant,
) -> Result<ContextView, PublishedHabitEvidenceError> {
    let habit_id = row.evidence.habit_id;
    let occurrence_id = row.evidence.planner_occurrence_id;
    let cleared = ContextView {
        exceptions: without_exceptions(context.exceptions, habit_id, occurrence_id),
        ..context
    };
    if horizon_start <= window_start && window_end <= horizon_end {
        let source = move_source(
            row.evidence,
            row.identity_readable,
            row.ordinal,
            row.current_item_revision,
        );
        let start = crate::habits::zones::planner_result(window_start);
        let end = crate::habits::zones::planner_result(window_end);
        if source is Ok && start is Ok && end is Ok {
            Ok(
                ContextView {
                    exceptions: cleared.exceptions.push(
                        RecurrenceException {
                            item_id: habit_id,
                            occurrence_id,
                            action: RecurrenceExceptionAction::Move {
                                start: start->Ok_0,
                                end: end->Ok_0,
                                source: source->Ok_0,
                            },
                        },
                    ),
                    ..cleared
                },
            )
        } else {
            Err(PublishedHabitEvidenceError::Invalid)
        }
    } else {
        Ok(left_out(cleared, habit_id, occurrence_id))
    }
}

/// Whether a decision is about the occurrence that it is stored with.
pub open spec fn row_agrees(row: MissedEvidenceRow) -> bool {
    &&& row.resolution.occurrence_evidence_id == row.evidence.id
    &&& row.resolution.habit_id == row.evidence.habit_id
    &&& row.resolution.source_planner_occurrence_id == row.evidence.planner_occurrence_id
}

/// The state with the decision about a missed occurrence.
pub open spec fn missed_step(
    state: MissedState,
    row: MissedEvidenceRow,
    horizon_start: Instant,
    horizon_end: Instant,
) -> Result<MissedState, PublishedHabitEvidenceError> {
    if !row.content_valid || !row_agrees(row) {
        Err(PublishedHabitEvidenceError::Invalid)
    } else if !decision_applies(row, state.targets) {
        Ok(state)
    } else {
        match row.resolution.action {
            HabitMissedResolutionAction::Skip => Ok(
                MissedState {
                    context: left_out(
                        state.context,
                        row.evidence.habit_id,
                        row.evidence.planner_occurrence_id,
                    ),
                    ..state
                },
            ),
            HabitMissedResolutionAction::Carry { window_start, window_end } => match carried(
                state.context,
                row,
                window_start,
                window_end,
                horizon_start,
                horizon_end,
            ) {
                Ok(context) => Ok(MissedState { context, ..state }),
                Err(error) => Err(error),
            },
            HabitMissedResolutionAction::ReduceFrequency {
                suppressed_planner_occurrence_ids,
            } => if row.target_ineligible || !row.reduction_is_effective {
                Ok(state)
            } else {
                Ok(
                    suppressed_fold(
                        state,
                        row.evidence.habit_id,
                        suppressed_planner_occurrence_ids@,
                        suppressed_planner_occurrence_ids@.len(),
                    ),
                )
            },
            _ => Ok(state),
        }
    }
}

/// The state with the decisions about the first `count` missed occurrences.
pub open spec fn missed_fold(
    state: MissedState,
    rows: Seq<MissedEvidenceRow>,
    count: nat,
    horizon_start: Instant,
    horizon_end: Instant,
) -> Result<MissedState, PublishedHabitEvidenceError>
    decreases count,
{
    if count == 0 {
        Ok(state)
    } else {
        match missed_fold(state, rows, (count - 1) as nat, horizon_start, horizon_end) {
            Err(error) => Err(error),
            Ok(before) => missed_step(before, rows[count - 1], horizon_start, horizon_end),
        }
    }
}

/// The context with when a habit was last completed.
pub open spec fn anchor_step(context: ContextView, row: AnchorRow) -> Result<
    ContextView,
    PublishedHabitEvidenceError,
> {
    let occurred_at = crate::habits::zones::planner_result(row.occurred_at);
    if row.content_valid && occurred_at is Ok {
        Ok(
            ContextView {
                anchors: context.anchors.insert(row.habit_id, occurred_at->Ok_0),
                ..context
            },
        )
    } else {
        Err(PublishedHabitEvidenceError::Invalid)
    }
}

/// The context with when the habits of the first `count` rows were last completed.
pub open spec fn anchor_fold(context: ContextView, rows: Seq<AnchorRow>, count: nat) -> Result<
    ContextView,
    PublishedHabitEvidenceError,
>
    decreases count,
{
    if count == 0 {
        Ok(context)
    } else {
        match anchor_fold(context, rows, (count - 1) as nat) {
            Err(error) => Err(error),
            Ok(before) => anchor_step(before, rows[count - 1]),
        }
    }
}

/// The part of a pause that lies within the horizon.
pub open spec fn clipped(row: PauseRow, horizon_start: Instant, horizon_end: Instant) -> (
    Instant,
    Instant,
) {
    let end = match row.ended_at {
        Some(ended_at) => ended_at,
        None => horizon_end,
    };
    (
        if row.started_at >= horizon_start {
            row.started_at
        } else {
            horizon_start
        },
        if end <= horizon_end {
            end
        } else {
            horizon_end
        },
    )
}

/// The context with the part of a pause that lies within the horizon.
pub open spec fn pause_step(
    context: ContextView,
    row: PauseRow,
    horizon_start: Instant,
    horizon_end: Instant,
) -> Result<ContextView, PublishedHabitEvidenceError> {
    let (start, end) = clipped(row, horizon_start, horizon_end);
    if start >= end {
        Ok(context)
    } else {
        let first = crate::habits::zones::planner_result(start);
        let last = crate::habits::zones::planner_result(end);
        if first is Ok && last is Ok {
            Ok(
                ContextView {
                    pauses: context.pauses.push(
                        RecurrencePause {
                            item_id: row.habit_id,
                            start: first->Ok_0,
                            end: last->Ok_0,
                        },
                    ),
                    ..context
                },
            )
        } else {
            Err(PublishedHabitEvidenceError::Invalid)
        }
    }
}

/// The context with the parts of the first `count` pauses that lie within the horizon.
pub open spec fn pause_fold(
    context: ContextView,
    rows: Seq<PauseRow>,
    count: nat,
    horizon_start: Instant,
    horizon_end: Instant,
) -> Result<ContextView, PublishedHabitEvidenceError>
    decreases count,
{
    if count == 0 {
        Ok(context)
    } else {
        match pause_fold(context, rows, (count - 1) as nat, horizon_start, horizon_end) {
            Err(error) => Err(error),
            Ok(before) => pause_step(before, rows[count - 1], horizon_start, horizon_end),
        }
    }
}

/// A context in which nothing has to be respected.
pub open spec fn empty_context() -> ContextView {
    ContextView {
        partial_progress: Map::empty(),
        completed: Set::empty(),
        exceptions: Seq::empty(),
        anchors: Map::empty(),
        pauses: Seq::empty(),
    }
}

/// What the planner has to respect within a horizon.
pub open spec fn recurrence_result(
    horizon_start: Instant,
    horizon_end: Instant,
    outcomes: Seq<OutcomeEvidenceRow>,
    missed: Seq<MissedEvidenceRow>,
    anchors: Seq<AnchorRow>,
    pauses: Seq<PauseRow>,
) -> Result<ContextView, PublishedHabitEvidenceError> {
    match outcome_fold(empty_context(), outcomes, outcomes.len()) {
        Err(error) => Err(error),
        Ok(reported) => match missed_fold(
            MissedState { context: reported, targets: Set::empty() },
            missed,
            missed.len(),
            horizon_start,
            horizon_end,
        ) {
            Err(error) => Err(error),
            Ok(decided) => match anchor_fold(decided.context, anchors, anchors.len()) {
                Err(error) => Err(error),
                Ok(anchored) => pause_fold(
                    anchored,
                    pauses,
                    pauses.len(),
                    horizon_start,
                    horizon_end,
                ),
            },
        },
    }
}

/// Whether a list of pairs holds a pair.
fn holds_pair(pairs: &Vec<(Uuid, Uuid)>, pair: (Uuid, Uuid)) -> (result: bool)
    ensures
        result == pairs@.contains(pair),
{
    let mut i: usize = 0;
    while i < pairs.len()
        invariant
            i <= pairs.len(),
            forall|k: int| 0 <= k < i ==> pairs@[k] != pair,
        decreases pairs.len() - i,
    {
        if pairs[i].0 == pair.0 && pairs[i].1 == pair.1 {
            assert(pairs@[i as int] == pair);
            return true;
        }
        i = i + 1;
    }
    false
}

/// Adds an exception that leaves out an occurrence, where none is there.
pub fn push_unique_skip(
    exceptions: &mut Vec<RecurrenceException>,
    item_id: Uuid,
    occurrence_id: Uuid,
)
    ensures
        final(exceptions)@ == with_skip(old(exceptions)@, item_id, occurrence_id),
{
    let mut i: usize = 0;
    while i < exceptions.len()
        invariant
            i <= exceptions.len(),
            exceptions@ == old(exceptions)@,
            forall|k: int|
                0 <= k < i ==> !skips(#[trigger] exceptions@[k], item_id, occurrence_id),
        decreases exceptions.len() - i,
    {
        let exception: RecurrenceException = exceptions[i];
        if exception.item_id == item_id && exception.occurrence_id == occurrence_id
            && exception.action == RecurrenceExceptionAction::Skip {
            assert(skips(exceptions@[i as int], item_id, occurrence_id));
            return;
        }
        i = i + 1;
    }
    assert(!is_skipped(exceptions@, item_id, occurrence_id));
    exceptions.push(
        RecurrenceException { item_id, occurrence_id, action: RecurrenceExceptionAction::Skip },
    );
}

/// The exceptions without those for an occurrence of a series.
fn drop_exceptions(
    exceptions: &Vec<RecurrenceException>,
    item_id: Uuid,
    occurrence_id: Uuid,
) -> (result: Vec<RecurrenceException>)
    ensures
        result@ == without_exceptions(exceptions@, item_id, occurrence_id),
{
    let ghost keep = |exception: RecurrenceException|
        !(exception.item_id == item_id && exception.occurrence_id == occurrence_id);
    let mut kept: Vec<RecurrenceException> = Vec::new();
    let mut i: usize = 0;
    proof {
        reveal(Seq::filter);
        assert(exceptions@.take(0).filter(keep) =~= Seq::empty());
    }
    while i < exceptions.len()
        invariant
            i <= exceptions.len(),
            keep == (|exception: RecurrenceException|
                !(exception.item_id == item_id && exception.occurrence_id == occurrence_id)),
            kept@ == exceptions@.take(i as int).filter(keep),
        decreases exceptions.len() - i,
    {
        let exception: RecurrenceException = exceptions[i];
        proof {
            crate::sequences::lemma_filter_step(exceptions@, i as int, keep);
        }
        if !(exception.item_id == item_id && exception.occurrence_id == occurrence_id) {
            kept.push(exception);
        }
        i = i + 1;
    }
    assert(exceptions@.take(i as int) =~= exceptions@);
    kept
}

impl RecurrenceContext {
    /// A context in which nothing has to be respected.
    pub fn new() -> (result: RecurrenceContext)
        ensures
            result@ == empty_context(),
    {
        let context: RecurrenceContext = RecurrenceContext {
            partial_progress: BTreeMap::new(),
            completed_occurrence_ids: BTreeSet::new(),
            exceptions: Vec::new(),
            completion_anchors: BTreeMap::new(),
            pauses: Vec::new(),
        };
        assert(context@.exceptions =~= Seq::empty());
        assert(context@.pauses =~= Seq::empty());
        assert(context@.partial_progress =~= Map::empty());
        assert(context@.anchors =~= Map::empty());
        assert(context@.completed =~= Set::empty());
        context
    }

    /// Leaves out an occurrence.
    fn leave_out(&mut self, item_id: Uuid, occurrence_id: Uuid)
        ensures
            final(self)@ == left_out(old(self)@, item_id, occurrence_id),
    {
        self.partial_progress.remove(&occurrence_id);
        push_unique_skip(&mut self.exceptions, item_id, occurrence_id);
    }

    /// Adds a report on an occurrence.
    fn add_outcome(&mut self, row: &OutcomeEvidenceRow) -> (result: Result<
        (),
        PublishedHabitEvidenceError,
    >)
        ensures
            match outcome_step(old(self)@, *row) {
                Ok(after) => result is Ok && final(self)@ == after,
                Err(error) => result == Err::<(), PublishedHabitEvidenceError>(error),
            },
    {
        if !row.content_valid {
            return Err(PublishedHabitEvidenceError::Invalid);
        }
        if same_text(row.status.as_str(), "partial") {
            if row.progress_basis_points < 1 || row.progress_basis_points >= 10_000 {
                return Err(PublishedHabitEvidenceError::Invalid);
            }
            match row.expected_duration_seconds {
                None => {},
                Some(seconds) => {
                    if seconds > u64::MAX - 59 {
                        return Err(PublishedHabitEvidenceError::Invalid);
                    }
                    let minutes: u64 = (seconds + 59) / 60;
                    if minutes > u32::MAX as u64 {
                        return Err(PublishedHabitEvidenceError::Invalid);
                    }
                    if self.partial_progress.contains_key(&row.planner_occurrence_id) {
                        return Err(PublishedHabitEvidenceError::Conflict);
                    }
                    self.partial_progress.insert(
                        row.planner_occurrence_id,
                        RecurrencePartialProgress {
                            progress_basis_points: row.progress_basis_points as u16,
                            expected_duration_minutes: minutes as u32,
                            remaining_duration_minutes: None,
                        },
                    );
                },
            }
            Ok(())
        } else if same_text(row.status.as_str(), "completed") {
            self.completed_occurrence_ids.insert(row.planner_occurrence_id);
            Ok(())
        } else if same_text(row.status.as_str(), "skipped") {
            self.exceptions.push(
                RecurrenceException {
                    item_id: row.habit_id,
                    occurrence_id: row.planner_occurrence_id,
                    action: RecurrenceExceptionAction::Skip,
                },
            );
            Ok(())
        } else {
            Err(PublishedHabitEvidenceError::Invalid)
        }
    }

    /// Carries an occurrence to another window.
    fn carry(
        &mut self,
        row: &MissedEvidenceRow,
        window_start: Instant,
        window_end: Instant,
        horizon_start: Instant,
        horizon_end: Instant,
    ) -> (result: Result<(), PublishedHabitEvidenceError>)
        ensures
            match carried(
                old(self)@,
                *row,
                window_start,
                window_end,
                horizon_start,
                horizon_end,
            ) {
                Ok(after) => result is Ok && final(self)@ == after,
                Err(error) => result == Err::<(), PublishedHabitEvidenceError>(error),
            },
    {
        let habit_id: Uuid = row.evidence.habit_id;
        let occurrence_id: Uuid = row.evidence.planner_occurrence_id;
        let kept: Vec<RecurrenceException> = drop_exceptions(
            &self.exceptions,
            habit_id,
            occurrence_id,
        );
        self.exceptions = kept;
        if horizon_start <= window_start && window_end <= horizon_end {
            let source: RecurrenceMoveSource = recurrence_move_source(
                &row.evidence,
                row.identity_readable,
                row.ordinal,
                row.current_item_revision,
            )?;
            let start: Instant = chrono_to_offset(window_start)?;
            let end: Instant = chrono_to_offset(window_end)?;
            self.exceptions.push(
                RecurrenceException {
                    item_id: habit_id,
                    occurrence_id,
                    action: RecurrenceExceptionAction::Move { start, end, source },
                },
            );
        } else {
            self.leave_out(habit_id, occurrence_id);
        }
        Ok(())
    }

    /// Adds the decision about a missed occurrence. `targets` are the occurrences that
    /// are left out for others.
    fn add_missed(
        &mut self,
        targets: &mut Vec<(Uuid, Uuid)>,
        row: &MissedEvidenceRow,
        horizon_start: Instant,
        horizon_end: Instant,
    ) -> (result: Result<(), PublishedHabitEvidenceError>)
        ensures
            match missed_step(
                MissedState { context: old(self)@, targets: old(targets)@.to_set() },
                *row,
                horizon_start,
                horizon_end,
            ) {
                Ok(after) => result is Ok && final(self)@ == after.context
                    && final(targets)@.to_set() == after.targets,
                Err(error) => result == Err::<(), PublishedHabitEvidenceError>(error),
            },
    {
        broadcast use vstd::seq_lib::group_seq_properties;

        if !row.content_valid {
            return Err(PublishedHabitEvidenceError::Invalid);
        }
        let habit_id: Uuid = row.evidence.habit_id;
        let occurrence_id: Uuid = row.evidence.planner_occurrence_id;
        if row.resolution.occurrence_evidence_id != row.evidence.id || row.resolution.habit_id
            != habit_id || row.resolution.source_planner_occurrence_id != occurrence_id {
            return Err(PublishedHabitEvidenceError::Invalid);
        }
        let done: bool = match &row.source_outcome_status {
            Some(status) => same_text(status.as_str(), "completed") || same_text(
                status.as_str(),
                "skipped",
            ),
            None => false,
        };
        let present: String = encoded_hash(hash_bytes(&row.current_policy));
        if done || row.source_paused || row.source_is_effectively_suppressed || !same_text(
            row.evidence.policy_fingerprint.as_str(),
            present.as_str(),
        ) || holds_pair(targets, (habit_id, occurrence_id)) {
            assert(!decision_applies(*row, old(targets)@.to_set()));
            return Ok(());
        }
        assert(decision_applies(*row, old(targets)@.to_set()));
        match &row.resolution.action {
            HabitMissedResolutionAction::Skip => {
                self.leave_out(habit_id, occurrence_id);
                Ok(())
            },
            HabitMissedResolutionAction::Carry { window_start, window_end } => self.carry(
                row,
                *window_start,
                *window_end,
                horizon_start,
                horizon_end,
            ),
            HabitMissedResolutionAction::ReduceFrequency { suppressed_planner_occurrence_ids } => {
                if row.target_ineligible || !row.reduction_is_effective {
                    return Ok(());
                }
                let ghost state = MissedState {
                    context: self@,
                    targets: targets@.to_set(),
                };
                let mut i: usize = 0;
                while i < suppressed_planner_occurrence_ids.len()
                    invariant
                        i <= suppressed_planner_occurrence_ids.len(),
                        self@ == suppressed_fold(
                            state,
                            habit_id,
                            suppressed_planner_occurrence_ids@,
                            i as nat,
                        ).context,
                        targets@.to_set() == suppressed_fold(
                            state,
                            habit_id,
                            suppressed_planner_occurrence_ids@,
                            i as nat,
                        ).targets,
                    decreases suppressed_planner_occurrence_ids.len() - i,
                {
                    let id: Uuid = suppressed_planner_occurrence_ids[i];
                    let ghost before = targets@;
                    targets.push((habit_id, id));
                    proof {
                        before.lemma_push_to_set_commute((habit_id, id));
                    }
                    self.leave_out(habit_id, id);
                    i = i + 1;
                }
                Ok(())
            },
            _ => Ok(()),
        }
    }

    /// Adds when a habit was last completed.
    fn add_anchor(&mut self, row: &AnchorRow) -> (result: Result<(), PublishedHabitEvidenceError>)
        ensures
            match anchor_step(old(self)@, *row) {
                Ok(after) => result is Ok && final(self)@ == after,
                Err(error) => result == Err::<(), PublishedHabitEvidenceError>(error),
            },
    {
        if !row.content_valid {
            return Err(PublishedHabitEvidenceError::Invalid);
        }
        let occurred_at: Instant = chrono_to_offset(row.occurred_at)?;
        self.completion_anchors.insert(row.habit_id, occurred_at);
        Ok(())
    }

    /// Adds the part of a pause that lies within the horizon.
    fn add_pause(
        &mut self,
        row: &PauseRow,
        horizon_start: Instant,
        horizon_end: Instant,
    ) -> (result: Result<(), PublishedHabitEvidenceError>)
        ensures
            match pause_step(old(self)@, *row, horizon_start, horizon_end) {
                Ok(after) => result is Ok && final(self)@ == after,
                Err(error) => result == Err::<(), PublishedHabitEvidenceError>(error),
            },
    {
        let start: Instant = if row.started_at >= horizon_start {
            row.started_at
        } else {
            horizon_start
        };
        let ended_at: Instant = match row.ended_at {
            Some(ended_at) => ended_at,
            None => horizon_end,
        };
        let end: Instant = if ended_at <= horizon_end {
            ended_at
        } else {
            horizon_end
        };
        if start < end {
            let first: Instant = chrono_to_offset(start)?;
            let last: Instant = chrono_to_offset(end)?;
            self.pauses.push(RecurrencePause { item_id: row.habit_id, start: first, end: last });
        }
        Ok(())
    }
}

/// What the planner has to respect, with the place in the stream of changes up to which
/// it is known.
#[derive(Debug)]
pub struct AuthoritativeHabitRecurrence {
    pub change_head: u64,
    pub context: RecurrenceContext,
}

/// A failed first part of a fold fails the whole.
proof fn lemma_outcome_error(
    context: ContextView,
    rows: Seq<OutcomeEvidenceRow>,
    low: nat,
    high: nat,
)
    requires
        low <= high,
        outcome_fold(context, rows, low) is Err,
    ensures
        outcome_fold(context, rows, high) == outcome_fold(context, rows, low),
    decreases high,
{
    if low < high {
        lemma_outcome_error(context, rows, low, (high - 1) as nat);
    }
}

proof fn lemma_missed_error(
    state: MissedState,
    rows: Seq<MissedEvidenceRow>,
    low: nat,
    high: nat,
    horizon_start: Instant,
    horizon_end: Instant,
)
    requires
        low <= high,
        missed_fold(state, rows, low, horizon_start, horizon_end) is Err,
    ensures
        missed_fold(state, rows, high, horizon_start, horizon_end) == missed_fold(
            state,
            rows,
            low,
            horizon_start,
            horizon_end,
        ),
    decreases high,
{
    if low < high {
        lemma_missed_error(state, rows, low, (high - 1) as nat, horizon_start, horizon_end);
    }
}

proof fn lemma_anchor_error(context: ContextView, rows: Seq<AnchorRow>, low: nat, high: nat)
    requires
        low <= high,
        anchor_fold(context, rows, low) is Err,
    ensures
        anchor_fold(context, rows, high) == anchor_fold(context, rows, low),
    decreases high,
{
    if low < high {
        lemma_anchor_error(context, rows, low, (high - 1) as nat);
    }
}

proof fn lemma_pause_error(
    context: ContextView,
    rows: Seq<PauseRow>,
    low: nat,
    high: nat,
    horizon_start: Instant,
    horizon_end: Instant,
)
    requires
        low <= high,
        pause_fold(context, rows, low, horizon_start, horizon_end) is Err,
    ensures
        pause_fold(context, rows, high, horizon_start, horizon_end) == pause_fold(
            context,
            rows,
            low,
            horizon_start,
            horizon_end,
        ),
    decreases high,
{
    if low < high {
        lemma_pause_error(context, rows, low, (high - 1) as nat, horizon_start, horizon_end);
    }
}

/// What the planner has to respect within a horizon.
///
/// `head` is the last place in the stream of changes. `outcomes` are the reports and
/// `missed` the decisions that touch the horizon or one of the moved occurrences, the
/// decisions in the order of the occurrences that they are about; `anchors` are the last
/// completions and `pauses` the pauses that touch the horizon.
pub fn authoritative_habit_recurrence(
    horizon_start: Instant,
    horizon_end: Instant,
    moved_occurrences: usize,
    head: i64,
    outcomes: &Vec<OutcomeEvidenceRow>,
    missed: &Vec<MissedEvidenceRow>,
    anchors: &Vec<AnchorRow>,
    pauses: &Vec<PauseRow>,
) -> (result: Result<AuthoritativeHabitRecurrence, PublishedHabitEvidenceError>)
    ensures
        if horizon_start >= horizon_end || moved_occurrences > MAX_AUTHORITATIVE_MOVED_OCCURRENCES
            || head < 0 {
            result is Err && result->Err_0 == PublishedHabitEvidenceError::Invalid
        } else {
            match recurrence_result(
                horizon_start,
                horizon_end,
                outcomes@,
                missed@,
                anchors@,
                pauses@,
            ) {
                Ok(context) => result is Ok && result->Ok_0.change_head == head
                    && result->Ok_0.context@ == context,
                Err(error) => result is Err && result->Err_0 == error,
            }
        },
{
    if horizon_start >= horizon_end || moved_occurrences > MAX_AUTHORITATIVE_MOVED_OCCURRENCES {
        return Err(PublishedHabitEvidenceError::Invalid);
    }
    if head < 0 {
        return Err(PublishedHabitEvidenceError::Invalid);
    }
    let mut context: RecurrenceContext = RecurrenceContext::new();
    let mut i: usize = 0;
    while i < outcomes.len()
        invariant
            i <= outcomes.len(),
            horizon_start < horizon_end,
            moved_occurrences <= MAX_AUTHORITATIVE_MOVED_OCCURRENCES,
            head >= 0,
            outcome_fold(empty_context(), outcomes@, i as nat) == Ok::<
                ContextView,
                PublishedHabitEvidenceError,
            >(context@),
        decreases outcomes.len() - i,
    {
        match context.add_outcome(&outcomes[i]) {
            Ok(_) => {},
            Err(error) => {
                proof {
                    lemma_outcome_error(
                        empty_context(),
                        outcomes@,
                        (i + 1) as nat,
                        outcomes@.len(),
                    );
                }
                return Err(error);
            },
        }
        i = i + 1;
    }
    let ghost reported = context@;
    let ghost begun = MissedState { context: reported, targets: Set::empty() };
    let mut targets: Vec<(Uuid, Uuid)> = Vec::new();
    assert(targets@.to_set() =~= Set::empty());
    i = 0;
    while i < missed.len()
        invariant
            i <= missed.len(),
            horizon_start < horizon_end,
            moved_occurrences <= MAX_AUTHORITATIVE_MOVED_OCCURRENCES,
            head >= 0,
            outcome_fold(empty_context(), outcomes@, outcomes@.len()) == Ok::<
                ContextView,
                PublishedHabitEvidenceError,
            >(reported),
            begun == (MissedState { context: reported, targets: Set::empty() }),
            missed_fold(begun, missed@, i as nat, horizon_start, horizon_end) == Ok::<
                MissedState,
                PublishedHabitEvidenceError,
            >(MissedState { context: context@, targets: targets@.to_set() }),
        decreases missed.len() - i,
    {
        match context.add_missed(&mut targets, &missed[i], horizon_start, horizon_end) {
            Ok(_) => {},
            Err(error) => {
                proof {
                    lemma_missed_error(
                        begun,
                        missed@,
                        (i + 1) as nat,
                        missed@.len(),
                        horizon_start,
                        horizon_end,
                    );
                }
                return Err(error);
            },
        }
        i = i + 1;
    }
    let ghost decided = context@;
    i = 0;
    while i < anchors.len()
        invariant
            i <= anchors.len(),
            horizon_start < horizon_end,
            moved_occurrences <= MAX_AUTHORITATIVE_MOVED_OCCURRENCES,
            head >= 0,
            outcome_fold(empty_context(), outcomes@, outcomes@.len()) == Ok::<
                ContextView,
                PublishedHabitEvidenceError,
            >(reported),
            begun == (MissedState { context: reported, targets: Set::empty() }),
            missed_fold(begun, missed@, missed@.len(), horizon_start, horizon_end) is Ok,
            missed_fold(
                begun,
                missed@,
                missed@.len(),
                horizon_start,
                horizon_end,
            )->Ok_0.context == decided,
            anchor_fold(decided, anchors@, i as nat) == Ok::<
                ContextView,
                PublishedHabitEvidenceError,
            >(context@),
        decreases anchors.len() - i,
    {
        match context.add_anchor(&anchors[i]) {
            Ok(_) => {},
            Err(error) => {
                proof {
                    lemma_anchor_error(decided, anchors@, (i + 1) as nat, anchors@.len());
                }
                return Err(error);
            },
        }
        i = i + 1;
    }
    let ghost anchored = context@;
    i = 0;
    while i < pauses.len()
        invariant
            i <= pauses.len(),
            horizon_start < horizon_end,
            moved_occurrences <= MAX_AUTHORITATIVE_MOVED_OCCURRENCES,
            head >= 0,
            outcome_fold(empty_context(), outcomes@, outcomes@.len()) == Ok::<
                ContextView,
                PublishedHabitEvidenceError,
            >(reported),
            begun == (MissedState { context: reported, targets: Set::empty() }),
            missed_fold(begun, missed@, missed@.len(), horizon_start, horizon_end) is Ok,
            missed_fold(
                begun,
                missed@,
                missed@.len(),
                horizon_start,
                horizon_end,
            )->Ok_0.context == decided,
            anchor_fold(decided, anchors@, anchors@.len()) == Ok::<
                ContextView,
                PublishedHabitEvidenceError,
            >(anchored),
            pause_fold(anchored, pauses@, i as nat, horizon_start, horizon_end) == Ok::<
                ContextView,
                PublishedHabitEvidenceError,
            >(context@),
        decreases pauses.len() - i,
    {
        match context.add_pause(&pauses[i], horizon_start, horizon_end) {
            Ok(_) => {},
            Err(error) => {
                proof {
                    lemma_pause_error(
                        anchored,
                        pauses@,
                        (i + 1) as nat,
                        pauses@.len(),
                        horizon_start,
                        horizon_end,
                    );
                }
                return Err(error);
            },
        }
        i = i + 1;
    }
    Ok(AuthoritativeHabitRecurrence { change_head: head as u64, context })
}

/// An occurrence that is left out for another does not pass that on: the decision about
/// it changes nothing.
pub proof fn suppressed_occurrence_does_not_cascade(
    state: MissedState,
    row: MissedEvidenceRow,
    horizon_start: Instant,
    horizon_end: Instant,
)
    requires
        row.content_valid,
        row_agrees(row),
        state.targets.contains((row.evidence.habit_id, row.evidence.planner_occurrence_id)),
    ensures
        missed_step(state, row, horizon_start, horizon_end) == Ok::<
            MissedState,
            PublishedHabitEvidenceError,
        >(state),
{
}

/// Nothing is done in part of an occurrence that is left out for another, and an
/// exception says that it is left out.
pub proof fn suppressed_occurrences_are_left_out(
    state: MissedState,
    habit_id: Uuid,
    ids: Seq<Uuid>,
    count: nat,
    k: int,
)
    requires
        0 <= k < count <= ids.len(),
    ensures
        !suppressed_fold(state, habit_id, ids, count).context.partial_progress.contains_key(ids[k]),
        is_skipped(
            suppressed_fold(state, habit_id, ids, count).context.exceptions,
            habit_id,
            ids[k],
        ),
        suppressed_fold(state, habit_id, ids, count).targets.contains((habit_id, ids[k])),
    decreases count,
{
    let before = suppressed_fold(state, habit_id, ids, (count - 1) as nat);
    let after = suppressed_fold(state, habit_id, ids, count);
    if k < count - 1 {
        suppressed_occurrences_are_left_out(state, habit_id, ids, (count - 1) as nat, k);
        let n = choose|n: int|
            0 <= n < before.context.exceptions.len() && skips(
                #[trigger] before.context.exceptions[n],
                habit_id,
                ids[k],
            );
        assert(after.context.exceptions[n] == before.context.exceptions[n]);
        assert(skips(after.context.exceptions[n], habit_id, ids[k]));
    } else if !is_skipped(before.context.exceptions, habit_id, ids[k]) {
        let n = before.context.exceptions.len() as int;
        assert(skips(after.context.exceptions[n], habit_id, ids[k]));
    }
}

/// Whether nothing of an instant lies below a microsecond.
pub open spec fn whole_micros(value: Instant) -> bool {
    crate::time::stored_instant(value) == value
}

/// Whether nothing of the times of a pause lies below a microsecond.
pub open spec fn pause_in_micros(row: PauseRow) -> bool {
    whole_micros(row.started_at) && (row.ended_at is Some ==> whole_micros(row.ended_at->0))
}

/// Whatever pause is handed to the planner lies within the horizon. None is empty, where all
/// times are in whole microseconds, as those of the database are.
pub proof fn pauses_lie_within_the_horizon(
    context: ContextView,
    rows: Seq<PauseRow>,
    count: nat,
    horizon_start: Instant,
    horizon_end: Instant,
    after: ContextView,
)
    requires
        count <= rows.len(),
        context.pauses.len() == 0,
        pause_fold(context, rows, count, horizon_start, horizon_end) == Ok::<
            ContextView,
            PublishedHabitEvidenceError,
        >(after),
    ensures
        forall|k: int|
            0 <= k < after.pauses.len() ==> crate::time::stored_instant(horizon_start) <= (
            #[trigger] after.pauses[k]).start <= after.pauses[k].end <= horizon_end,
        whole_micros(horizon_start) && whole_micros(horizon_end) && (forall|i: int|
            0 <= i < count ==> pause_in_micros(#[trigger] rows[i])) ==> forall|k: int|
            0 <= k < after.pauses.len() ==> (#[trigger] after.pauses[k]).start
                < after.pauses[k].end,
    decreases count,
{
    if count > 0 {
        let before = pause_fold(
            context,
            rows,
            (count - 1) as nat,
            horizon_start,
            horizon_end,
        )->Ok_0;
        pauses_lie_within_the_horizon(
            context,
            rows,
            (count - 1) as nat,
            horizon_start,
            horizon_end,
            before,
        );
        assert forall|k: int| 0 <= k < after.pauses.len() implies crate::time::stored_instant(
            horizon_start,
        ) <= (#[trigger] after.pauses[k]).start <= after.pauses[k].end <= horizon_end by {
            if k < before.pauses.len() {
                assert(after.pauses[k] == before.pauses[k]);
            }
        }
        if whole_micros(horizon_start) && whole_micros(horizon_end) && (forall|i: int|
            0 <= i < count ==> pause_in_micros(#[trigger] rows[i])) {
            assert(pause_in_micros(rows[count - 1]));
            assert forall|k: int| 0 <= k < after.pauses.len() implies (
            #[trigger] after.pauses[k]).start < after.pauses[k].end by {
                if k < before.pauses.len() {
                    assert(after.pauses[k] == before.pauses[k]);
                }
            }
        }
    }
}

/// Whether no occurrence is left out by two exceptions.
pub open spec fn left_out_once(exceptions: Seq<RecurrenceException>) -> bool {
    forall|i: int, j: int|
        0 <= i < j < exceptions.len() ==> !skips(
            #[trigger] exceptions[j],
            (#[trigger] exceptions[i]).item_id,
            exceptions[i].occurrence_id,
        ) || exceptions[i].action != RecurrenceExceptionAction::Skip
}

/// Whether nothing is done in part of an occurrence that is left out.
pub open spec fn left_out_whole(context: ContextView) -> bool {
    forall|i: int|
        0 <= i < context.exceptions.len() && (#[trigger] context.exceptions[i]).action
            == RecurrenceExceptionAction::Skip ==> !context.partial_progress.contains_key(
            context.exceptions[i].occurrence_id,
        )
}

/// Whether two reports cannot both be true: one says that an occurrence is left out, and the
/// other that it is left out once more, or done in part.
pub open spec fn reports_clash(skipped: OutcomeEvidenceRow, other: OutcomeEvidenceRow) -> bool {
    &&& skipped.status@ == "skipped"@
    &&& skipped.planner_occurrence_id == other.planner_occurrence_id
    &&& {
        ||| other.status@ == "partial"@ && other.expected_duration_seconds is Some
        ||| other.status@ == "skipped"@ && other.habit_id == skipped.habit_id
    }
}

/// Whether a report leaves out the occurrence of an exception.
pub open spec fn reports_skip(row: OutcomeEvidenceRow, exception: RecurrenceException) -> bool {
    row.status@ == "skipped"@ && skips(exception, row.habit_id, row.planner_occurrence_id)
}

/// Whether a report says that an occurrence is done in part.
pub open spec fn reports_part(row: OutcomeEvidenceRow, occurrence_id: Uuid) -> bool {
    row.status@ == "partial"@ && row.expected_duration_seconds is Some && row.planner_occurrence_id
        == occurrence_id
}

/// Whether one of the first `count` reports leaves out the occurrence of an exception.
pub open spec fn skip_reported(
    rows: Seq<OutcomeEvidenceRow>,
    count: nat,
    exception: RecurrenceException,
) -> bool {
    exists|r: int| 0 <= r < count && reports_skip(#[trigger] rows[r], exception)
}

/// Whether one of the first `count` reports says that an occurrence is done in part.
pub open spec fn part_reported(
    rows: Seq<OutcomeEvidenceRow>,
    count: nat,
    occurrence_id: Uuid,
) -> bool {
    exists|r: int| 0 <= r < count && reports_part(#[trigger] rows[r], occurrence_id)
}

proof fn lemma_reports_left_out_once(
    rows: Seq<OutcomeEvidenceRow>,
    count: nat,
    after: ContextView,
)
    requires
        count <= rows.len(),
        forall|i: int, j: int|
            0 <= i < rows.len() && 0 <= j < rows.len() && i != j ==> !reports_clash(
                #[trigger] rows[i],
                #[trigger] rows[j],
            ),
        outcome_fold(empty_context(), rows, count) == Ok::<
            ContextView,
            PublishedHabitEvidenceError,
        >(after),
    ensures
        left_out_once(after.exceptions),
        left_out_whole(after),
        forall|i: int|
            0 <= i < after.exceptions.len() ==> skip_reported(
                rows,
                count,
                #[trigger] after.exceptions[i],
            ),
        forall|id: Uuid| #[trigger]
            after.partial_progress.contains_key(id) ==> part_reported(rows, count, id),
    decreases count,
{
    if count > 0 {
        let n = (count - 1) as nat;
        let row = rows[n as int];
        let before = outcome_fold(empty_context(), rows, n)->Ok_0;
        lemma_reports_left_out_once(rows, n, before);
        assert forall|i: int| 0 <= i < after.exceptions.len() implies skip_reported(
            rows,
            count,
            #[trigger] after.exceptions[i],
        ) by {
            if i < before.exceptions.len() {
                assert(after.exceptions[i] == before.exceptions[i]);
                let r = choose|r: int|
                    0 <= r < n && reports_skip(#[trigger] rows[r], before.exceptions[i]);
                assert(reports_skip(rows[r], after.exceptions[i]));
            } else {
                assert(reports_skip(rows[n as int], after.exceptions[i]));
            }
        }
        assert forall|id: Uuid| #[trigger]
            after.partial_progress.contains_key(id) implies part_reported(rows, count, id) by {
            if before.partial_progress.contains_key(id) {
                let r = choose|r: int| 0 <= r < n && reports_part(#[trigger] rows[r], id);
                assert(reports_part(rows[r], id));
            } else {
                assert(reports_part(rows[n as int], id));
            }
        }
        assert forall|i: int|
            0 <= i < after.exceptions.len() && (#[trigger] after.exceptions[i]).action
                == RecurrenceExceptionAction::Skip implies !after.partial_progress.contains_key(
            after.exceptions[i].occurrence_id,
        ) by {
            let exception = after.exceptions[i];
            if after.partial_progress.contains_key(exception.occurrence_id) {
                assert(skip_reported(rows, count, exception));
                assert(part_reported(rows, count, exception.occurrence_id));
                let a = choose|r: int| 0 <= r < count && reports_skip(#[trigger] rows[r], exception);
                let b = choose|r: int|
                    0 <= r < count && reports_part(#[trigger] rows[r], exception.occurrence_id);
                if a == b {
                    reveal_strlit("partial");
                    reveal_strlit("skipped");
                    assert("partial"@[0] != "skipped"@[0]);
                } else {
                    assert(reports_clash(rows[a], rows[b]));
                }
            }
        }
        assert forall|i: int, j: int| 0 <= i < j < after.exceptions.len() implies !skips(
            #[trigger] after.exceptions[j],
            (#[trigger] after.exceptions[i]).item_id,
            after.exceptions[i].occurrence_id,
        ) || after.exceptions[i].action != RecurrenceExceptionAction::Skip by {
            assert(after.exceptions[i] == before.exceptions[i]);
            if j < before.exceptions.len() {
                assert(after.exceptions[j] == before.exceptions[j]);
            } else {
                let r = choose|r: int|
                    0 <= r < n && reports_skip(#[trigger] rows[r], before.exceptions[i]);
                assert(!reports_clash(rows[r], rows[n as int]));
            }
        }
    }
}

proof fn lemma_left_out(context: ContextView, item_id: Uuid, occurrence_id: Uuid)
    requires
        left_out_once(context.exceptions),
        left_out_whole(context),
    ensures
        left_out_once(left_out(context, item_id, occurrence_id).exceptions),
        left_out_whole(left_out(context, item_id, occurrence_id)),
{
    let after = left_out(context, item_id, occurrence_id);
    if !is_skipped(context.exceptions, item_id, occurrence_id) {
        assert forall|i: int, j: int| 0 <= i < j < after.exceptions.len() implies !skips(
            #[trigger] after.exceptions[j],
            (#[trigger] after.exceptions[i]).item_id,
            after.exceptions[i].occurrence_id,
        ) || after.exceptions[i].action != RecurrenceExceptionAction::Skip by {
            assert(after.exceptions[i] == context.exceptions[i]);
            if j < context.exceptions.len() {
                assert(after.exceptions[j] == context.exceptions[j]);
            } else {
                assert(!skips(context.exceptions[i], item_id, occurrence_id));
            }
        }
    }
    assert forall|i: int|
        0 <= i < after.exceptions.len() && (#[trigger] after.exceptions[i]).action
            == RecurrenceExceptionAction::Skip implies !after.partial_progress.contains_key(
        after.exceptions[i].occurrence_id,
    ) by {
        if i < context.exceptions.len() {
            assert(after.exceptions[i] == context.exceptions[i]);
        }
    }
}

proof fn lemma_cleared(exceptions: Seq<RecurrenceException>, item_id: Uuid, occurrence_id: Uuid)
    requires
        left_out_once(exceptions),
    ensures
        left_out_once(without_exceptions(exceptions, item_id, occurrence_id)),
        forall|i: int|
            0 <= i < without_exceptions(exceptions, item_id, occurrence_id).len()
                ==> exceptions.contains(
                #[trigger] without_exceptions(exceptions, item_id, occurrence_id)[i],
            ),
    decreases exceptions.len(),
{
    let keep = |exception: RecurrenceException|
        !(exception.item_id == item_id && exception.occurrence_id == occurrence_id);
    let kept = without_exceptions(exceptions, item_id, occurrence_id);
    reveal(Seq::filter);
    if exceptions.len() > 0 {
        let first = exceptions.drop_last();
        let last = exceptions.last();
        let before = without_exceptions(first, item_id, occurrence_id);
        assert forall|i: int, j: int| 0 <= i < j < first.len() implies !skips(
            #[trigger] first[j],
            (#[trigger] first[i]).item_id,
            first[i].occurrence_id,
        ) || first[i].action != RecurrenceExceptionAction::Skip by {
            assert(first[i] == exceptions[i] && first[j] == exceptions[j]);
        }
        lemma_cleared(first, item_id, occurrence_id);
        assert(kept == if keep(last) {
            before.push(last)
        } else {
            before
        });
        assert forall|i: int| 0 <= i < kept.len() implies exceptions.contains(
            #[trigger] kept[i],
        ) by {
            if i < before.len() {
                assert(kept[i] == before[i]);
                let n = choose|n: int| 0 <= n < first.len() && first[n] == before[i];
                assert(exceptions[n] == kept[i]);
            } else {
                assert(exceptions[exceptions.len() - 1] == kept[i]);
            }
        }
        assert forall|i: int, j: int| 0 <= i < j < kept.len() implies !skips(
            #[trigger] kept[j],
            (#[trigger] kept[i]).item_id,
            kept[i].occurrence_id,
        ) || kept[i].action != RecurrenceExceptionAction::Skip by {
            assert(kept[i] == before[i]);
            if j < before.len() {
                assert(kept[j] == before[j]);
            } else {
                let n = choose|n: int| 0 <= n < first.len() && first[n] == before[i];
                assert(exceptions[n] == kept[i]);
                assert(exceptions[exceptions.len() - 1] == kept[j]);
            }
        }
    }
}

proof fn lemma_suppressed_left_out_once(
    state: MissedState,
    habit_id: Uuid,
    ids: Seq<Uuid>,
    count: nat,
)
    requires
        left_out_once(state.context.exceptions),
        left_out_whole(state.context),
    ensures
        left_out_once(suppressed_fold(state, habit_id, ids, count).context.exceptions),
        left_out_whole(suppressed_fold(state, habit_id, ids, count).context),
    decreases count,
{
    if count > 0 {
        lemma_suppressed_left_out_once(state, habit_id, ids, (count - 1) as nat);
        lemma_left_out(
            suppressed_fold(state, habit_id, ids, (count - 1) as nat).context,
            habit_id,
            ids[count - 1],
        );
    }
}

proof fn lemma_carried_left_out_once(
    context: ContextView,
    row: MissedEvidenceRow,
    window_start: Instant,
    window_end: Instant,
    horizon_start: Instant,
    horizon_end: Instant,
    after: ContextView,
)
    requires
        left_out_once(context.exceptions),
        left_out_whole(context),
        carried(context, row, window_start, window_end, horizon_start, horizon_end) == Ok::<
            ContextView,
            PublishedHabitEvidenceError,
        >(after),
    ensures
        left_out_once(after.exceptions),
        left_out_whole(after),
{
    let habit_id = row.evidence.habit_id;
    let occurrence_id = row.evidence.planner_occurrence_id;
    let cleared = ContextView {
        exceptions: without_exceptions(context.exceptions, habit_id, occurrence_id),
        ..context
    };
    lemma_cleared(context.exceptions, habit_id, occurrence_id);
    assert forall|i: int|
        0 <= i < cleared.exceptions.len() && (#[trigger] cleared.exceptions[i]).action
            == RecurrenceExceptionAction::Skip implies !cleared.partial_progress.contains_key(
        cleared.exceptions[i].occurrence_id,
    ) by {
        let n = choose|n: int|
            0 <= n < context.exceptions.len() && context.exceptions[n] == cleared.exceptions[i];
        assert(context.exceptions[n].action == RecurrenceExceptionAction::Skip);
    }
    if horizon_start <= window_start && window_end <= horizon_end {
        assert forall|i: int, j: int| 0 <= i < j < after.exceptions.len() implies !skips(
            #[trigger] after.exceptions[j],
            (#[trigger] after.exceptions[i]).item_id,
            after.exceptions[i].occurrence_id,
        ) || after.exceptions[i].action != RecurrenceExceptionAction::Skip by {
            assert(after.exceptions[i] == cleared.exceptions[i]);
            if j < cleared.exceptions.len() {
                assert(after.exceptions[j] == cleared.exceptions[j]);
            }
        }
        assert forall|i: int|
            0 <= i < after.exceptions.len() && (#[trigger] after.exceptions[i]).action
                == RecurrenceExceptionAction::Skip implies !after.partial_progress.contains_key(
            after.exceptions[i].occurrence_id,
        ) by {
            if i < cleared.exceptions.len() {
                assert(after.exceptions[i] == cleared.exceptions[i]);
            }
        }
    } else {
        lemma_left_out(cleared, habit_id, occurrence_id);
    }
}

proof fn lemma_missed_left_out_once(
    state: MissedState,
    rows: Seq<MissedEvidenceRow>,
    count: nat,
    horizon_start: Instant,
    horizon_end: Instant,
    after: MissedState,
)
    requires
        left_out_once(state.context.exceptions),
        left_out_whole(state.context),
        missed_fold(state, rows, count, horizon_start, horizon_end) == Ok::<
            MissedState,
            PublishedHabitEvidenceError,
        >(after),
    ensures
        left_out_once(after.context.exceptions),
        left_out_whole(after.context),
    decreases count,
{
    if count > 0 {
        let row = rows[count - 1];
        let before = missed_fold(
            state,
            rows,
            (count - 1) as nat,
            horizon_start,
            horizon_end,
        )->Ok_0;
        lemma_missed_left_out_once(
            state,
            rows,
            (count - 1) as nat,
            horizon_start,
            horizon_end,
            before,
        );
        match row.resolution.action {
            HabitMissedResolutionAction::Skip => {
                lemma_left_out(
                    before.context,
                    row.evidence.habit_id,
                    row.evidence.planner_occurrence_id,
                );
            },
            HabitMissedResolutionAction::Carry { window_start, window_end } => {
                if decision_applies(row, before.targets) {
                    lemma_carried_left_out_once(
                        before.context,
                        row,
                        window_start,
                        window_end,
                        horizon_start,
                        horizon_end,
                        after.context,
                    );
                }
            },
            HabitMissedResolutionAction::ReduceFrequency { suppressed_planner_occurrence_ids } => {
                lemma_suppressed_left_out_once(
                    before,
                    row.evidence.habit_id,
                    suppressed_planner_occurrence_ids@,
                    suppressed_planner_occurrence_ids@.len(),
                );
            },
            _ => {},
        }
    }
}

proof fn lemma_anchors_keep(context: ContextView, rows: Seq<AnchorRow>, count: nat)
    requires
        anchor_fold(context, rows, count) is Ok,
    ensures
        anchor_fold(context, rows, count)->Ok_0.exceptions == context.exceptions,
        anchor_fold(context, rows, count)->Ok_0.partial_progress == context.partial_progress,
    decreases count,
{
    if count > 0 {
        lemma_anchors_keep(context, rows, (count - 1) as nat);
    }
}

proof fn lemma_pauses_keep(
    context: ContextView,
    rows: Seq<PauseRow>,
    count: nat,
    horizon_start: Instant,
    horizon_end: Instant,
)
    requires
        pause_fold(context, rows, count, horizon_start, horizon_end) is Ok,
    ensures
        pause_fold(context, rows, count, horizon_start, horizon_end)->Ok_0.exceptions
            == context.exceptions,
        pause_fold(context, rows, count, horizon_start, horizon_end)->Ok_0.partial_progress
            == context.partial_progress,
    decreases count,
{
    if count > 0 {
        lemma_pauses_keep(context, rows, (count - 1) as nat, horizon_start, horizon_end);
    }
}

/// No occurrence is left out twice, and of none that is left out is anything done in part,
/// where no two reports clash.
pub proof fn occurrences_are_left_out_once_and_whole(
    horizon_start: Instant,
    horizon_end: Instant,
    outcomes: Seq<OutcomeEvidenceRow>,
    missed: Seq<MissedEvidenceRow>,
    anchors: Seq<AnchorRow>,
    pauses: Seq<PauseRow>,
    after: ContextView,
)
    requires
        forall|i: int, j: int|
            0 <= i < outcomes.len() && 0 <= j < outcomes.len() && i != j ==> !reports_clash(
                #[trigger] outcomes[i],
                #[trigger] outcomes[j],
            ),
        recurrence_result(horizon_start, horizon_end, outcomes, missed, anchors, pauses) == Ok::<
            ContextView,
            PublishedHabitEvidenceError,
        >(after),
    ensures
        left_out_once(after.exceptions),
        left_out_whole(after),
{
    let reported = outcome_fold(empty_context(), outcomes, outcomes.len())->Ok_0;
    lemma_reports_left_out_once(outcomes, outcomes.len(), reported);
    let begun = MissedState { context: reported, targets: Set::empty() };
    let decided = missed_fold(begun, missed, missed.len(), horizon_start, horizon_end)->Ok_0;
    lemma_missed_left_out_once(
        begun,
        missed,
        missed.len(),
        horizon_start,
        horizon_end,
        decided,
    );
    let anchored = anchor_fold(decided.context, anchors, anchors.len())->Ok_0;
    lemma_anchors_keep(decided.context, anchors, anchors.len());
    lemma_pauses_keep(anchored, pauses, pauses.len(), horizon_start, horizon_end);
}

} // verus!
