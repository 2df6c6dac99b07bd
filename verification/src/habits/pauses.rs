//! Pauses of habits.
use vstd::prelude::*;

use crate::habits::model::{to_i64, HabitPause, HabitRepositoryError, PauseCreate, PauseResume};
use crate::habits::outcomes::{audit_entry, require_active_habit, HabitAudit, HabitItemRow};
use crate::habits::receipts::{replay_pause, StoredReceipt};
use crate::json::Json;
use crate::time::{Instant, Uuid};

verus! {

/// Whether a pause has some instant in common with the time from `start` to `end`.
pub open spec fn pause_overlaps(pause: HabitPause, start: Instant, end: Instant) -> bool {
    pause.started_at < end && (match pause.ended_at {
        None => true,
        Some(ended_at) => ended_at > start,
    })
}

/// Whether some pause of the habit overlaps the time from `start` to `end`.
pub open spec fn habit_paused(
    pauses: Seq<HabitPause>,
    habit_id: Uuid,
    start: Instant,
    end: Instant,
) -> bool {
    exists|k: int|
        0 <= k < pauses.len() && (#[trigger] pauses[k]).habit_id == habit_id && pause_overlaps(
            pauses[k],
            start,
            end,
        )
}

/// Whether some pause of the habit overlaps the time from `start` to `end`.
pub fn is_paused(pauses: &Vec<HabitPause>, habit_id: Uuid, start: Instant, end: Instant) -> (result:
    bool)
    ensures
        result == habit_paused(pauses@, habit_id, start, end),
{
    let mut i: usize = 0;
    while i < pauses.len()
        invariant
            i <= pauses.len(),
            forall|k: int|
                0 <= k < i ==> !((#[trigger] pauses@[k]).habit_id == habit_id && pause_overlaps(
                    pauses@[k],
                    start,
                    end,
                )),
        decreases pauses.len() - i,
    {
        let pause: HabitPause = pauses[i];
        let reaches: bool = match pause.ended_at {
            None => true,
            Some(ended_at) => ended_at > start,
        };
        if pause.habit_id == habit_id && pause.started_at < end && reaches {
            assert(pauses@[i as int].habit_id == habit_id);
            return true;
        }
        i = i + 1;
    }
    false
}

/// Whether a pause of a habit is still open, or ends behind `start`.
pub open spec fn reaches_past(pause: HabitPause, habit_id: Uuid, start: Instant) -> bool {
    pause.habit_id == habit_id && (match pause.ended_at {
        None => true,
        Some(ended_at) => ended_at > start,
    })
}

/// Whether a pause keeps the streak of a habit, where the habit itself does not say.
pub open spec fn streak_preserved(constraints: Json) -> bool {
    match constraints.member("preserves_streak_when_paused"@) {
        Some(Json::Bool(preserves)) => preserves,
        _ => true,
    }
}

/// Whether a pause keeps the streak of a habit.
pub fn preserves_streak(constraints: &Json) -> (result: bool)
    ensures
        result == streak_preserved(*constraints),
{
    match constraints.get("preserves_streak_when_paused") {
        Some(value) => match value.as_bool() {
            Some(preserves) => preserves,
            None => true,
        },
        None => true,
    }
}

/// Whether a new pause is refused before the other pauses are looked at, and why.
pub open spec fn pause_request_refusal(row: Option<HabitItemRow>, create: PauseCreate) -> Option<
    HabitRepositoryError,
> {
    match crate::habits::outcomes::habit_refusal(create.habit_id, row) {
        Some(error) => Some(error),
        None => if streak_preserved(row->0.constraints) != create.preserves_streak {
            Some(HabitRepositoryError::EvidenceConflict)
        } else if create.expected_revision != 0 {
            Some(
                HabitRepositoryError::RevisionConflict {
                    expected: create.expected_revision,
                    actual: 0,
                    current_occurrence: None,
                    current_pause: None,
                },
            )
        } else {
            None
        },
    }
}

/// Whether a pause has the identifier of a new pause.
pub open spec fn has_pause(pauses: Seq<HabitPause>, id: Uuid) -> bool {
    exists|k: int| 0 <= k < pauses.len() && (#[trigger] pauses[k]).id == id
}

/// Whether the habit has an open pause.
pub open spec fn has_open_pause(pauses: Seq<HabitPause>, habit_id: Uuid) -> bool {
    exists|k: int|
        0 <= k < pauses.len() && (#[trigger] pauses[k]).habit_id == habit_id
            && pauses[k].ended_at is None
}

/// Whether a pause of the habit is open or ends behind `start`.
pub open spec fn has_later_pause(pauses: Seq<HabitPause>, habit_id: Uuid, start: Instant) -> bool {
    exists|k: int| 0 <= k < pauses.len() && reaches_past(#[trigger] pauses[k], habit_id, start)
}

/// The pause that a request creates.
pub open spec fn created_pause(create: PauseCreate) -> HabitPause {
    HabitPause {
        id: create.id,
        habit_id: create.habit_id,
        revision: 1,
        started_at: create.started_at,
        ended_at: None,
        preserves_streak: create.preserves_streak,
        created_at: create.recorded_at,
        updated_at: create.recorded_at,
    }
}

/// Whether `error` is why a new pause is refused: its identifier is taken, the habit
/// rests already, or an earlier pause ends after the new one begins. The error
/// carries the pause that is in the way; of those that end later, the one that began
/// first.
pub open spec fn pause_conflict(
    pauses: Seq<HabitPause>,
    create: PauseCreate,
    error: HabitRepositoryError,
) -> bool {
    if has_pause(pauses, create.id) {
        exists|k: int|
            #![trigger pauses[k]]
            0 <= k < pauses.len() && pauses[k].id == create.id && error
                == HabitRepositoryError::PauseIdentityConflict(Box::new(pauses[k]))
    } else if has_open_pause(pauses, create.habit_id) {
        exists|k: int|
            #![trigger pauses[k]]
            0 <= k < pauses.len() && pauses[k].habit_id == create.habit_id && pauses[k].ended_at
                is None && error == HabitRepositoryError::OpenPauseConflict(Box::new(pauses[k]))
    } else {
        &&& has_later_pause(pauses, create.habit_id, create.started_at)
        &&& exists|k: int|
            #![trigger pauses[k]]
            {
                &&& 0 <= k < pauses.len()
                &&& reaches_past(pauses[k], create.habit_id, create.started_at)
                &&& error == HabitRepositoryError::OpenPauseConflict(Box::new(pauses[k]))
                &&& forall|j: int|
                    0 <= j < pauses.len() && reaches_past(
                        #[trigger] pauses[j],
                        create.habit_id,
                        create.started_at,
                    ) ==> pauses[k].started_at <= pauses[j].started_at
            }
    }
}

/// Whether a new pause is taken: nothing refuses it and no pause is in its way.
pub open spec fn pause_accepted(
    row: Option<HabitItemRow>,
    pauses: Seq<HabitPause>,
    create: PauseCreate,
) -> bool {
    &&& pause_request_refusal(row, create) is None
    &&& !has_pause(pauses, create.id)
    &&& !has_open_pause(pauses, create.habit_id)
    &&& !has_later_pause(pauses, create.habit_id, create.started_at)
}

/// What storing a pause writes.
#[derive(Debug)]
pub struct PausePlan {
    pub pause: HabitPause,
    pub previous: Option<HabitPause>,
    pub revision: i64,
    pub audit: HabitAudit,
}

/// What a request about a pause is answered: what it was answered before, or what
/// storing the pause writes.
#[derive(Debug)]
pub enum PauseStep {
    Replayed(HabitPause),
    Write(PausePlan),
}

/// What the beginning of a pause is answered, and what storing it writes.
///
/// `receipt` is what the request was answered before; `row` is the habit; `pauses` are
/// the pauses of the workspace.
pub fn create_pause(
    receipt: Option<StoredReceipt>,
    row: Option<HabitItemRow>,
    pauses: &Vec<HabitPause>,
    create: PauseCreate,
) -> (result: Result<PauseStep, HabitRepositoryError>)
    ensures
        match receipt {
            Some(StoredReceipt::Pause(value)) => result == Ok::<PauseStep, HabitRepositoryError>(
                PauseStep::Replayed(value),
            ),
            Some(_) => result == Err::<PauseStep, HabitRepositoryError>(
                HabitRepositoryError::IdempotencyConflict,
            ),
            None => match result {
                Ok(step) => {
                    &&& pause_accepted(row, pauses@, create)
                    &&& step is Write
                    &&& step->Write_0.pause == created_pause(create)
                    &&& step->Write_0.previous is None
                    &&& step->Write_0.revision == 1
                    &&& crate::habits::outcomes::audit_tells(
                        step->Write_0.audit,
                        "habit.pause.started"@,
                        "habit_pause"@,
                        create.id,
                        0,
                        1,
                    )
                },
                Err(error) => match pause_request_refusal(row, create) {
                    Some(refusal) => error == refusal,
                    None => pause_conflict(pauses@, create, error),
                },
            },
        },
{
    match replay_pause(receipt) {
        Ok(Some(value)) => {
            return Ok(PauseStep::Replayed(value));
        },
        Ok(None) => {},
        Err(error) => {
            return Err(error);
        },
    }
    let constraints: Json = require_active_habit(create.habit_id, row)?;
    if preserves_streak(&constraints) != create.preserves_streak {
        return Err(HabitRepositoryError::EvidenceConflict);
    }
    if create.expected_revision != 0 {
        return Err(
            HabitRepositoryError::RevisionConflict {
                expected: create.expected_revision,
                actual: 0,
                current_occurrence: None,
                current_pause: None,
            },
        );
    }
    let mut i: usize = 0;
    while i < pauses.len()
        invariant
            i <= pauses.len(),
            pause_request_refusal(row, create) is None,
            receipt is None,
            forall|k: int| 0 <= k < i ==> (#[trigger] pauses@[k]).id != create.id,
        decreases pauses.len() - i,
    {
        if pauses[i].id == create.id {
            assert(pauses@[i as int].id == create.id);
            return Err(HabitRepositoryError::PauseIdentityConflict(Box::new(pauses[i])));
        }
        i = i + 1;
    }
    i = 0;
    while i < pauses.len()
        invariant
            i <= pauses.len(),
            pause_request_refusal(row, create) is None,
            receipt is None,
            !has_pause(pauses@, create.id),
            forall|k: int|
                0 <= k < i ==> !((#[trigger] pauses@[k]).habit_id == create.habit_id
                    && pauses@[k].ended_at is None),
        decreases pauses.len() - i,
    {
        if pauses[i].habit_id == create.habit_id && pauses[i].ended_at.is_none() {
            assert(pauses@[i as int].habit_id == create.habit_id);
            return Err(HabitRepositoryError::OpenPauseConflict(Box::new(pauses[i])));
        }
        i = i + 1;
    }
    let mut first: Option<usize> = None;
    i = 0;
    while i < pauses.len()
        invariant
            i <= pauses.len(),
            match first {
                None => forall|k: int|
                    0 <= k < i ==> !reaches_past(
                        #[trigger] pauses@[k],
                        create.habit_id,
                        create.started_at,
                    ),
                Some(at) => {
                    &&& at < i
                    &&& reaches_past(pauses@[at as int], create.habit_id, create.started_at)
                    &&& forall|k: int|
                        0 <= k < i && reaches_past(
                            #[trigger] pauses@[k],
                            create.habit_id,
                            create.started_at,
                        ) ==> pauses@[at as int].started_at <= pauses@[k].started_at
                },
            },
        decreases pauses.len() - i,
    {
        let pause: HabitPause = pauses[i];
        let reaches: bool = match pause.ended_at {
            None => true,
            Some(ended_at) => ended_at > create.started_at,
        };
        if pause.habit_id == create.habit_id && reaches {
            first =
            match first {
                None => Some(i),
                Some(at) => if pause.started_at < pauses[at].started_at {
                    Some(i)
                } else {
                    Some(at)
                },
            };
        }
        i = i + 1;
    }
    match first {
        Some(at) => {
            assert(reaches_past(pauses@[at as int], create.habit_id, create.started_at));
            return Err(HabitRepositoryError::OpenPauseConflict(Box::new(pauses[at])));
        },
        None => {},
    }
    let pause: HabitPause = HabitPause {
        id: create.id,
        habit_id: create.habit_id,
        revision: 1,
        started_at: create.started_at,
        ended_at: None,
        preserves_streak: create.preserves_streak,
        created_at: create.recorded_at,
        updated_at: create.recorded_at,
    };
    let audit: HabitAudit = audit_entry("habit.pause.started", "habit_pause", create.id, 0, 1)?;
    Ok(PauseStep::Write(PausePlan { pause, previous: None, revision: 1, audit }))
}

/// Why the end of a pause is refused.
pub open spec fn resume_refusal(
    row: Option<HabitItemRow>,
    pause: Option<HabitPause>,
    resume: PauseResume,
) -> Option<HabitRepositoryError> {
    match crate::habits::outcomes::habit_refusal(resume.habit_id, row) {
        Some(error) => Some(error),
        None => match pause {
            None => Some(HabitRepositoryError::PauseNotFound(resume.id)),
            Some(current) => if current.revision != resume.expected_revision {
                Some(
                    HabitRepositoryError::RevisionConflict {
                        expected: resume.expected_revision,
                        actual: current.revision,
                        current_occurrence: None,
                        current_pause: Some(Box::new(current)),
                    },
                )
            } else if current.ended_at is Some {
                Some(HabitRepositoryError::PauseAlreadyClosed(Box::new(current)))
            } else if resume.ended_at <= current.started_at {
                Some(HabitRepositoryError::InvalidPauseInterval)
            } else if current.revision >= i64::MAX {
                Some(HabitRepositoryError::Internal)
            } else {
                None
            },
        },
    }
}

/// The pause once it has ended.
pub open spec fn resumed_pause(current: HabitPause, resume: PauseResume) -> HabitPause {
    HabitPause {
        revision: (current.revision + 1) as u64,
        ended_at: Some(resume.ended_at),
        updated_at: resume.recorded_at,
        ..current
    }
}

/// What the end of a pause is answered, and what storing it writes.
///
/// `receipt` is what the request was answered before; `row` is the habit; `pause` is
/// the pause of that habit with the identifier of the request, if there is one.
pub fn resume_pause(
    receipt: Option<StoredReceipt>,
    row: Option<HabitItemRow>,
    pause: Option<HabitPause>,
    resume: PauseResume,
) -> (result: Result<PauseStep, HabitRepositoryError>)
    ensures
        match receipt {
            Some(StoredReceipt::Pause(value)) => result == Ok::<PauseStep, HabitRepositoryError>(
                PauseStep::Replayed(value),
            ),
            Some(_) => result == Err::<PauseStep, HabitRepositoryError>(
                HabitRepositoryError::IdempotencyConflict,
            ),
            None => match result {
                Ok(step) => {
                    &&& resume_refusal(row, pause, resume) is None
                    &&& step is Write
                    &&& step->Write_0.pause == resumed_pause(pause->0, resume)
                    &&& step->Write_0.previous == pause
                    &&& step->Write_0.revision == pause->0.revision + 1
                    &&& crate::habits::outcomes::audit_tells(
                        step->Write_0.audit,
                        "habit.pause.resumed"@,
                        "habit_pause"@,
                        pause->0.id,
                        pause->0.revision,
                        (pause->0.revision + 1) as u64,
                    )
                },
                Err(error) => resume_refusal(row, pause, resume) == Some(error),
            },
        },
{
    match replay_pause(receipt) {
        Ok(Some(value)) => {
            return Ok(PauseStep::Replayed(value));
        },
        Ok(None) => {},
        Err(error) => {
            return Err(error);
        },
    }
    let _constraints: Json = require_active_habit(resume.habit_id, row)?;
    let current: HabitPause = match pause {
        Some(current) => current,
        None => {
            return Err(HabitRepositoryError::PauseNotFound(resume.id));
        },
    };
    if current.revision != resume.expected_revision {
        return Err(
            HabitRepositoryError::RevisionConflict {
                expected: resume.expected_revision,
                actual: current.revision,
                current_occurrence: None,
                current_pause: Some(Box::new(current)),
            },
        );
    }
    if current.ended_at.is_some() {
        return Err(HabitRepositoryError::PauseAlreadyClosed(Box::new(current)));
    }
    if resume.ended_at <= current.started_at {
        return Err(HabitRepositoryError::InvalidPauseInterval);
    }
    if current.revision == u64::MAX {
        return Err(HabitRepositoryError::Internal);
    }
    let revision: u64 = current.revision + 1;
    let stored_revision: i64 = to_i64(revision)?;
    let mut ended: HabitPause = current;
    ended.revision = revision;
    ended.ended_at = Some(resume.ended_at);
    ended.updated_at = resume.recorded_at;
    let audit: HabitAudit = audit_entry(
        "habit.pause.resumed",
        "habit_pause",
        current.id,
        current.revision,
        revision,
    )?;
    Ok(
        PauseStep::Write(
            PausePlan { pause: ended, previous: Some(current), revision: stored_revision, audit },
        ),
    )
}

/// Whether a pause that has ended did not end before it began.
pub open spec fn pause_ordered(pause: HabitPause) -> bool {
    match pause.ended_at {
        None => true,
        Some(ended_at) => pause.started_at < ended_at,
    }
}

/// Whether two pauses have no instant in common.
pub open spec fn pauses_apart(a: HabitPause, b: HabitPause) -> bool {
    ||| a.ended_at is Some && a.ended_at->0 <= b.started_at
    ||| b.ended_at is Some && b.ended_at->0 <= a.started_at
}

/// Whether the pauses of each habit are apart and each ends after it begins.
pub open spec fn pauses_well_formed(pauses: Seq<HabitPause>) -> bool {
    &&& forall|i: int| 0 <= i < pauses.len() ==> pause_ordered(#[trigger] pauses[i])
    &&& forall|i: int, j: int|
        #![trigger pauses[i], pauses[j]]
        0 <= i < pauses.len() && 0 <= j < pauses.len() && i != j && pauses[i].habit_id
            == pauses[j].habit_id ==> pauses_apart(pauses[i], pauses[j])
}

/// The pauses of a habit never overlap: a pause that is taken begins after all others
/// have ended.
pub proof fn new_pause_keeps_pauses_apart(
    row: Option<HabitItemRow>,
    pauses: Seq<HabitPause>,
    create: PauseCreate,
)
    requires
        pauses_well_formed(pauses),
        pause_accepted(row, pauses, create),
    ensures
        pauses_well_formed(pauses.push(created_pause(create))),
{
    let after = pauses.push(created_pause(create));
    assert forall|k: int| 0 <= k < pauses.len() && pauses[k].habit_id == create.habit_id implies
        pauses_apart(#[trigger] pauses[k], created_pause(create)) by {
        assert(!reaches_past(pauses[k], create.habit_id, create.started_at));
    }
    assert forall|i: int| 0 <= i < after.len() implies pause_ordered(#[trigger] after[i]) by {
        if i < pauses.len() {
            assert(after[i] == pauses[i]);
        }
    }
    assert forall|i: int, j: int|
        #![trigger after[i], after[j]]
        0 <= i < after.len() && 0 <= j < after.len() && i != j && after[i].habit_id
            == after[j].habit_id implies pauses_apart(after[i], after[j]) by {
        if i < pauses.len() {
            assert(after[i] == pauses[i]);
        }
        if j < pauses.len() {
            assert(after[j] == pauses[j]);
        }
    }
}

/// The pauses of a habit never overlap: ending a pause only makes it shorter.
pub proof fn ended_pause_keeps_pauses_apart(
    row: Option<HabitItemRow>,
    pauses: Seq<HabitPause>,
    at: int,
    resume: PauseResume,
)
    requires
        pauses_well_formed(pauses),
        0 <= at < pauses.len(),
        resume_refusal(row, Some(pauses[at]), resume) is None,
    ensures
        pauses_well_formed(pauses.update(at, resumed_pause(pauses[at], resume))),
{
    let after = pauses.update(at, resumed_pause(pauses[at], resume));
    assert forall|i: int| 0 <= i < after.len() implies pause_ordered(#[trigger] after[i]) by {
        if i != at {
            assert(after[i] == pauses[i]);
        }
    }
    assert forall|i: int, j: int|
        #![trigger after[i], after[j]]
        0 <= i < after.len() && 0 <= j < after.len() && i != j && after[i].habit_id
            == after[j].habit_id implies pauses_apart(after[i], after[j]) by {
        assert(pauses_apart(pauses[i], pauses[j]));
    }
}

/// A habit has at most one open pause.
pub proof fn one_open_pause(pauses: Seq<HabitPause>, i: int, j: int)
    requires
        pauses_well_formed(pauses),
        0 <= i < pauses.len(),
        0 <= j < pauses.len(),
        pauses[i].habit_id == pauses[j].habit_id,
        pauses[i].ended_at is None,
        pauses[j].ended_at is None,
    ensures
        i == j,
{
}

} // verus!
